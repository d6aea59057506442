use magaziner::progress::Progress;

#[test]
fn steps_are_numbered_from_one() {
    let mut p = Progress::new();
    assert_eq!(p.next("Fetching issue HTML…"), "[1/5] Fetching issue HTML…");
    assert_eq!(p.next("Extracting 12 articles…"), "[2/5] Extracting 12 articles…");
}

#[test]
fn substep_counts_articles_from_one() {
    let mut p = Progress::new();
    p.next("a");
    p.next("b");
    assert_eq!(p.substep(0, 12), "[2/5] Fetching article 1/12…");
    assert_eq!(p.substep(9, 12), "[2/5] Fetching article 10/12…");
}

#[test]
fn done_names_the_output() {
    let p = Progress::new();
    assert_eq!(p.done("Vol.1 No. 1.epub"), "Successfully completed: Vol.1 No. 1.epub");
}
