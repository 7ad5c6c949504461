use gitbook2md::captures::{all_have_groups, has_groups};
use gitbook2md::construct::{markdown, pattern, rewrite, Construct};
use gitbook2md::error::{Fault, RewriteError};
use gitbook2md::linked::{link, linked_pattern, rewrite_linked, source, sources_to_resolve, Linked};
use gitbook2md::replace::{find, find_tabs, strip_tab_markers};
use gitbook2md::splice::splice;

fn groups(list: &[Option<&str>]) -> Vec<Option<String>> {
    list.iter().map(|g| g.map(|s| s.to_string())).collect()
}

fn names(list: &[&str]) -> Vec<String> {
    list.iter().map(|s| s.to_string()).collect()
}

#[test]
fn splice_applies_edits_in_order() {
    let edits = vec![
        ("a".to_string(), "b".to_string()),
        ("b".to_string(), "c".to_string()),
    ];
    assert_eq!(splice("aba", &edits), "ccc");
}

#[test]
fn splice_replaces_every_occurrence_of_a_span() {
    let edits = vec![("<x>".to_string(), "y".to_string())];
    assert_eq!(splice("<x> and <x>", &edits), "y and y");
}

#[test]
fn splice_without_edits_keeps_the_text() {
    let edits: Vec<(String, String)> = Vec::new();
    assert_eq!(splice("text", &edits), "text");
}

#[test]
fn has_groups_wants_every_group_present() {
    let m = groups(&[Some("all"), Some("one"), None]);
    assert!(has_groups(&m, 0));
    assert!(has_groups(&m, 1));
    assert!(!has_groups(&m, 2));
    assert!(!has_groups(&m, 3));
    assert!(!has_groups(&groups(&[]), 0));
}

#[test]
fn all_have_groups_checks_each_match() {
    let good = groups(&[Some("x"), Some("y")]);
    let bad = groups(&[Some("x"), None]);
    assert!(all_have_groups(&vec![good.clone(), good.clone()], 1));
    assert!(!all_have_groups(&vec![good, bad], 1));
    assert!(all_have_groups(&Vec::new(), 5));
}

#[test]
fn markdown_of_each_construct() {
    let m = groups(&[Some("SPAN"), Some("one\ntwo"), Some("rest")]);
    assert_eq!(markdown(Construct::Code, &m), "one\ntwo");
    assert_eq!(markdown(Construct::Embed, &m), "[one\ntwo](one\ntwo)");
    assert_eq!(markdown(Construct::Hint, &m), "> one\n> two");
    assert_eq!(markdown(Construct::Tab, &m), "### Using one\ntwo\nrest");
}

#[test]
fn embed_markdown_is_a_link_to_the_url() {
    let m = groups(&[Some("{% embed url=\"U\" %}"), Some("U")]);
    assert_eq!(markdown(Construct::Embed, &m), "[U](U)");
}

#[test]
fn tab_markdown_is_heading_then_body() {
    let m = groups(&[Some("..."), Some("Python"), Some("\nprint(1)\n")]);
    assert_eq!(markdown(Construct::Tab, &m), "### Using Python\n\nprint(1)\n");
}

#[test]
fn rewrite_replaces_spans_found_in_the_untouched_text() {
    let found = vec![
        groups(&[Some("[A]"), Some("x")]),
        groups(&[Some("[B]"), Some("y")]),
    ];
    assert_eq!(
        rewrite(Construct::Code, "1 [A] 2 [B] 3 [A]", &found),
        "1 x 2 y 3 x"
    );
}

#[test]
fn rewrite_lone_construct_keeps_the_text_around_it() {
    let found = vec![groups(&[Some("<<hint>>"), Some("a\nb")])];
    assert_eq!(
        rewrite(Construct::Hint, "before <<hint>> after", &found),
        "before > a\n> b after"
    );
}

#[test]
fn patterns_compile_and_find_their_groups() {
    for kind in [Construct::Code, Construct::Embed, Construct::Hint] {
        assert_eq!(find(pattern(kind), "nothing here", 1), Ok(Vec::new()));
    }
    assert_eq!(find(pattern(Construct::Tab), "nothing here", 2), Ok(Vec::new()));
    assert_eq!(find(linked_pattern(Linked::FileLink), "nothing here", 1), Ok(Vec::new()));
    assert_eq!(find(linked_pattern(Linked::Image), "nothing here", 0), Ok(Vec::new()));
}

#[test]
fn find_reports_groups_of_each_match() {
    let found = find(pattern(Construct::Tab), "{% tab title=\"A\" %}x{% endtab %}", 2);
    assert_eq!(
        found,
        Ok(vec![groups(&[
            Some("{% tab title=\"A\" %}x{% endtab %}"),
            Some("A"),
            Some("x")
        ])])
    );
}

#[test]
fn find_is_not_greedy() {
    let doc = "{% code a=\"b\" %}1{% endcode %}{% code a=\"b\" %}2{% endcode %}";
    let found = find(pattern(Construct::Code), doc, 1).unwrap();
    assert_eq!(found.len(), 2);
    assert_eq!(found[0][1], Some("1".to_string()));
    assert_eq!(found[1][1], Some("2".to_string()));
}

#[test]
fn find_matches_across_lines() {
    let doc = "{% hint style=\"info\" %}\na\nb\n{% endhint %}";
    let found = find(pattern(Construct::Hint), doc, 1).unwrap();
    assert_eq!(found.len(), 1);
    assert_eq!(found[0][1], Some("\na\nb\n".to_string()));
}

#[test]
fn find_rejects_a_malformed_pattern() {
    let said = regex::Regex::new("(unclosed").unwrap_err().to_string();
    assert!(!said.is_empty());
    assert_eq!(find("(unclosed", "text", 0), Err(RewriteError::Pattern(said)));
}

#[test]
fn find_asks_for_no_group_beyond_the_span_when_told_so() {
    assert_eq!(find("a|(b)", "a", 0), Ok(vec![groups(&[Some("a"), None])]));
}

#[test]
fn error_kinds() {
    assert_eq!(RewriteError::Pattern("why".to_string()).kind(), Fault::Pattern);
    assert_eq!(RewriteError::Capture.kind(), Fault::Capture);
    assert_eq!(RewriteError::Assets.kind(), Fault::Assets);
    assert_eq!(find("(", "", 0).unwrap_err().kind(), Fault::Pattern);
    assert_eq!(find("a|(b)", "a", 1).unwrap_err().kind(), Fault::Capture);
}

#[test]
fn find_rejects_a_match_without_a_needed_group() {
    assert_eq!(find("a|(b)", "a", 1), Err(RewriteError::Capture));
    assert_eq!(find("a", "a", 1), Err(RewriteError::Capture));
    assert_eq!(
        find("a|(b)", "b", 1),
        Ok(vec![groups(&[Some("b"), Some("b")])])
    );
}

#[test]
fn image_source_prefers_the_figure_group() {
    assert_eq!(source(Linked::Image, &groups(&[Some("s"), Some("fig"), None])), "fig");
    assert_eq!(source(Linked::Image, &groups(&[Some("s"), None, Some("bare")])), "bare");
    assert_eq!(source(Linked::Image, &groups(&[Some("s"), Some("fig"), Some("bare")])), "fig");
    assert_eq!(source(Linked::Image, &groups(&[Some("s"), None, None])), "");
    assert_eq!(source(Linked::Image, &groups(&[Some("s")])), "");
}

#[test]
fn file_link_source_is_group_one() {
    assert_eq!(source(Linked::FileLink, &groups(&[Some("s"), Some("a b.pdf")])), "a b.pdf");
}

#[test]
fn link_to_relocated_asset() {
    assert_eq!(link(Linked::FileLink, "My File.png"), "[My_File.png](assets/My_File.png)");
    assert_eq!(link(Linked::Image, "My File.png"), "![image](assets/My_File.png)");
}

#[test]
fn sources_to_resolve_skips_remote_ones() {
    let found = vec![
        groups(&[Some("t1"), Some("a.txt")]),
        groups(&[Some("t2"), Some("https://example.com/b.txt")]),
        groups(&[Some("t3"), Some("dir/c.txt")]),
    ];
    assert_eq!(
        sources_to_resolve(Linked::FileLink, &found),
        names(&["a.txt", "dir/c.txt"])
    );
}

#[test]
fn rewrite_linked_pairs_names_with_local_matches() {
    let found = vec![
        groups(&[Some("<1>"), Some("a.txt")]),
        groups(&[Some("<2>"), Some("https://example.com/b.txt")]),
        groups(&[Some("<3>"), Some("dir/c d.txt")]),
    ];
    assert_eq!(
        rewrite_linked(Linked::FileLink, "<1> <2> <3>", &found, &names(&["a.txt", "c d.txt"])),
        "[a.txt](assets/a.txt) <2> [c_d.txt](assets/c_d.txt)"
    );
}

#[test]
fn rewrite_linked_with_only_remote_matches_changes_nothing() {
    let found = vec![
        groups(&[Some("<1>"), None, Some("https://example.com/a.png")]),
        groups(&[Some("<2>"), Some("http://example.com/b.png"), None]),
    ];
    assert_eq!(sources_to_resolve(Linked::Image, &found), names(&[]));
    assert_eq!(
        rewrite_linked(Linked::Image, "x <1> y <2> z", &found, &names(&[])),
        "x <1> y <2> z"
    );
}

#[test]
fn find_tabs_gathers_tabs_block_after_block() {
    let blocks = vec![
        groups(&[Some("B1"), Some("{% tab title=\"A\" %}1{% endtab %}")]),
        groups(&[Some("B2"), Some("no tab here")]),
        groups(&[
            Some("B3"),
            Some("{% tab title=\"B\" %}2{% endtab %}{% tab title=\"C\" %}3{% endtab %}"),
        ]),
    ];
    let tabs = find_tabs(&blocks).unwrap();
    let titles: Vec<Option<String>> = tabs.iter().map(|m| m[1].clone()).collect();
    assert_eq!(
        titles,
        vec![Some("A".to_string()), Some("B".to_string()), Some("C".to_string())]
    );
}

#[test]
fn strip_tab_markers_drops_markers_with_their_line_feed() {
    assert_eq!(strip_tab_markers("{% tabs %}\nx\n{% endtabs %}\ny"), "x\ny");
    assert_eq!(strip_tab_markers("a{% tabs %}\nb{% endtabs %}\nc"), "abc");
}

#[test]
fn strip_tab_markers_keeps_markers_without_line_feed() {
    assert_eq!(strip_tab_markers("{% tabs %}x{% endtabs %}"), "{% tabs %}x{% endtabs %}");
    assert_eq!(strip_tab_markers("{% endtabs %}"), "{% endtabs %}");
}

#[test]
fn strip_tab_markers_can_join_a_split_marker() {
    assert_eq!(strip_tab_markers("{% ta{% tabs %}\nbs %}\n"), "{% tabs %}\n");
    assert_eq!(strip_tab_markers("{% ta{% endtabs %}\nbs %}\n"), "{% tabs %}\n");
}
