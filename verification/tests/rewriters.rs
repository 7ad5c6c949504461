use gitbook2md::error::RewriteError;
use gitbook2md::replace::{
    code, embed_urls, file_link_sources, file_links, hints, image_sources, images, tabs,
};

fn names(list: &[&str]) -> Vec<String> {
    list.iter().map(|s| s.to_string()).collect()
}

#[test]
fn code_block_gives_its_body() {
    let doc = "{% code lang=\"x\" %}BODY{% endcode %}".to_string();
    assert_eq!(code(doc), Ok("BODY".to_string()));
}

#[test]
fn code_blocks_are_unwrapped_one_by_one() {
    let doc = "a\n{% code title=\"t\" %}\nfn f() {}\n{% endcode %}\nb\n{% code lang=\"rs\" %}\nx\n{% endcode %}\nc"
        .to_string();
    assert_eq!(code(doc), Ok("a\n\nfn f() {}\n\nb\n\nx\n\nc".to_string()));
}

#[test]
fn code_block_with_empty_body_gives_nothing() {
    let doc = "{% code lang=\"x\" %}{% endcode %}".to_string();
    assert_eq!(code(doc), Ok("".to_string()));
}

#[test]
fn code_block_with_empty_body_keeps_the_text_around_it() {
    let doc = "a{% code lang=\"x\" %}{% endcode %}b{% code lang=\"y\" %}c{% endcode %}d".to_string();
    assert_eq!(code(doc), Ok("abcd".to_string()));
}

#[test]
fn hint_with_empty_body_gives_nothing() {
    let doc = "a{% hint style=\"info\" %}{% endhint %}b".to_string();
    assert_eq!(hints(doc), Ok("ab".to_string()));
}

#[test]
fn tab_with_empty_body_gives_its_heading() {
    let doc = "{% tabs %}\n{% tab title=\"A\" %}{% endtab %}\n{% endtabs %}\n".to_string();
    assert_eq!(tabs(doc), Ok("### Using A\n\n".to_string()));
}

#[test]
fn code_without_blocks_is_unchanged() {
    let doc = "# Title\n\nplain text\n".to_string();
    assert_eq!(code(doc.clone()), Ok(doc));
}

#[test]
fn embed_becomes_link_and_closers_go() {
    let doc = "see {% embed url=\"https://a.example/x\" %}\ncaption\n{% endembed %}\nend {% endembed %}"
        .to_string();
    assert_eq!(
        embed_urls(doc),
        Ok("see [https://a.example/x](https://a.example/x)\ncaption\n\nend ".to_string())
    );
}

#[test]
fn unmatched_embed_closer_is_dropped() {
    assert_eq!(embed_urls("a{% endembed %}b".to_string()), Ok("ab".to_string()));
}

#[test]
fn hint_body_is_quoted_line_by_line() {
    let doc = "{% hint style=\"info\" %}\nfirst\nsecond\n{% endhint %}".to_string();
    assert_eq!(hints(doc), Ok("> \n> first\n> second".to_string()));
}

#[test]
fn hint_keeps_blank_lines_as_quoted_lines() {
    let doc = "x {% hint style=\"warning\" %}\n\na\n\n{% endhint %} y".to_string();
    assert_eq!(hints(doc), Ok("x > \n> \n> a\n>  y".to_string()));
}

#[test]
fn file_link_with_local_source() {
    let doc = "get {% file src=\"../files/My File.pdf\" %} here".to_string();
    assert_eq!(file_link_sources(&doc), Ok(names(&["../files/My File.pdf"])));
    assert_eq!(
        file_links(doc, &names(&["My File.pdf"])),
        Ok("get [My_File.pdf](assets/My_File.pdf) here".to_string())
    );
}

#[test]
fn file_link_with_remote_source_stays() {
    let doc = "get {% file src=\"https://a.example/f.pdf\" %} here".to_string();
    assert_eq!(file_link_sources(&doc), Ok(names(&[])));
    assert_eq!(file_links(doc.clone(), &names(&[])), Ok(doc));
}

#[test]
fn file_links_mixed_sources_pair_names_with_local_ones() {
    let doc = "{% file src=\"a.txt\" %} {% file src=\"ftp://h/b\" %} {% file src=\"c d.txt\" %}"
        .to_string();
    assert_eq!(file_link_sources(&doc), Ok(names(&["a.txt", "c d.txt"])));
    assert_eq!(
        file_links(doc, &names(&["a.txt", "c d.txt"])),
        Ok("[a.txt](assets/a.txt) {% file src=\"ftp://h/b\" %} [c_d.txt](assets/c_d.txt)".to_string())
    );
}

#[test]
fn file_links_with_wrong_number_of_names_fail() {
    let doc = "{% file src=\"a.txt\" %}".to_string();
    assert_eq!(file_links(doc.clone(), &names(&[])), Err(RewriteError::Assets));
    assert_eq!(file_links(doc, &names(&["a", "b"])), Err(RewriteError::Assets));
}

#[test]
fn image_in_figure_and_bare_image() {
    let doc = "<figure><img src=\"./diagram.png\" alt=\"\"><figcaption></figcaption></figure>\n<img src=\"pic one.png\" alt=\"p\">"
        .to_string();
    assert_eq!(image_sources(&doc), Ok(names(&["./diagram.png", "pic one.png"])));
    assert_eq!(
        images(doc, &names(&["diagram.png", "pic one.png"])),
        Ok("![image](assets/diagram.png)\n![image](assets/pic_one.png)".to_string())
    );
}

#[test]
fn image_with_remote_source_stays() {
    let doc = "<img src=\"https://a.example/i.png\" alt=\"i\">".to_string();
    assert_eq!(image_sources(&doc), Ok(names(&[])));
    assert_eq!(images(doc.clone(), &names(&[])), Ok(doc));
}

#[test]
fn local_file_named_with_space_is_normalized() {
    let doc = "<img src=\"img/My File.png\" alt=\"x\">".to_string();
    assert_eq!(
        images(doc, &names(&["My File.png"])),
        Ok("![image](assets/My_File.png)".to_string())
    );
}

#[test]
fn tabs_become_headings() {
    let doc = "{% tabs %}\n{% tab title=\"Rust\" %}\ncargo run\n{% endtab %}\n{% tab title=\"Go\" %}\ngo run\n{% endtab %}\n{% endtabs %}\nafter"
        .to_string();
    assert_eq!(
        tabs(doc),
        Ok("### Using Rust\n\ncargo run\n\n### Using Go\n\ngo run\n\nafter".to_string())
    );
}

#[test]
fn tab_with_spaced_title_is_left_alone() {
    let doc = "{% tabs %}\n{% tab title=\"Two Words\" %}\nbody\n{% endtab %}\n{% endtabs %}\n"
        .to_string();
    assert_eq!(
        tabs(doc),
        Ok("{% tab title=\"Two Words\" %}\nbody\n{% endtab %}\n".to_string())
    );
}

#[test]
fn tab_outside_a_block_is_left_alone() {
    let doc = "{% tab title=\"A\" %}\nbody\n{% endtab %}\n".to_string();
    assert_eq!(tabs(doc.clone()), Ok(doc));
}
