use basalt::text_counts::{CharCount, WordCount};

#[test]
fn test_text_counts() {
    let tests = [
        (
            "# Heading 1\n\n## Heading 2\n\n### Heading 3\n\n#### Heading 4\n\n##### Heading 5\n\n###### Heading 6",
            (WordCount(12), CharCount(91)),
        ),
        (
            "## Tasks\n\n- [ ] Task\n\n- [x] Completed task\n\n- [?] Completed task",
            (WordCount(10), CharCount(64)),
        ),
        (
            "## Quotes\n\nYou _can_ quote text by adding a `>` symbols before the text.\n\n> Human beings face ever more complex and urgent problems, and their effectiveness in dealing with these problems is a matter that is critical to the stability and continued progress of society.\n>\n>- Doug Engelbart, 1961",
            (WordCount(47), CharCount(294)),
        ),
    ];

    tests.into_iter().for_each(|(input, expected)| {
        assert_eq!(
            (WordCount::from(input), CharCount::from(input)),
            expected,
            "With input {input}"
        )
    });
}

#[test]
fn counts_of_edge_cases() {
    assert_eq!(WordCount::from(""), WordCount(0));
    assert_eq!(CharCount::from(""), CharCount(0));
    assert_eq!(WordCount::from("  \n\t "), WordCount(0));
    assert_eq!(WordCount::from("***"), WordCount(0));
    assert_eq!(WordCount::from("a*b"), WordCount(1));
    assert_eq!(WordCount::from("a * b"), WordCount(2));
    assert_eq!(WordCount::from("one\u{00a0}two\u{3000}three"), WordCount(3));
    assert_eq!(WordCount::from("-"), WordCount(1));
    assert_eq!(CharCount::from("héllo"), CharCount(5));
    assert_eq!(usize::from(WordCount::from(7)), 7);
    assert_eq!(usize::from(CharCount::from(9)), 9);
    assert_eq!(WordCount::default(), WordCount(0));
}
