use gitbook2md::error::RewriteError;
use gitbook2md::filesystem::{is_hidden, is_markdown, FileDetail};
use gitbook2md::pipeline::{Stage, Transform};
use std::path::PathBuf;

fn names(list: &[&str]) -> Vec<String> {
    list.iter().map(|s| s.to_string()).collect()
}

#[test]
fn pipeline_runs_the_six_rewriters_in_order() {
    let doc = "# Guide\n\
{% code lang=\"sh\" %}\nls\n{% endcode %}\n\
{% embed url=\"https://example.com\" %}\n{% endembed %}\n\
{% file src=\"files/My Report.pdf\" %}\n\
{% hint style=\"info\" %}\nmind\nthis\n{% endhint %}\n\
<figure><img src=\"./diagram.png\" alt=\"\"><figcaption></figcaption></figure>\n\
{% tabs %}\n{% tab title=\"Linux\" %}\napt\n{% endtab %}\n{% endtabs %}\nend\n"
        .to_string();

    let first = Transform::begin(doc).unwrap();
    assert_eq!(first.stage, Stage::FileLinks);
    assert_eq!(first.wanted(), Ok(names(&["files/My Report.pdf"])));

    let second = first.supply(&names(&["My Report.pdf"])).unwrap();
    assert_eq!(second.stage, Stage::Images);
    assert_eq!(second.wanted(), Ok(names(&["./diagram.png"])));

    let third = second.supply(&names(&["diagram.png"])).unwrap();
    assert_eq!(third.stage, Stage::Finished);
    assert_eq!(third.wanted(), Ok(names(&[])));
    assert_eq!(
        third.content,
        "# Guide\n\
\nls\n\n\
[https://example.com](https://example.com)\n\n\
[My_Report.pdf](assets/My_Report.pdf)\n\
> \n> mind\n> this\n\
![image](assets/diagram.png)\n\
### Using Linux\n\napt\n\nend\n"
    );
}

#[test]
fn pipeline_image_scenario() {
    let doc = "Intro\n\n<img src=\"./diagram.png\" alt=\"A diagram\">\n".to_string();
    let first = Transform::begin(doc).unwrap();
    assert_eq!(first.wanted(), Ok(names(&[])));
    let second = first.supply(&names(&[])).unwrap();
    assert_eq!(second.wanted(), Ok(names(&["./diagram.png"])));
    let third = second.supply(&names(&["diagram.png"])).unwrap();
    assert_eq!(third.stage, Stage::Finished);
    assert!(third.content.contains("![image](assets/diagram.png)"));
    assert_eq!(third.content, "Intro\n\n![image](assets/diagram.png)\n");
}

#[test]
fn pipeline_leaves_remote_references_alone() {
    let doc = "{% file src=\"https://example.com/f.pdf\" %}\n<img src=\"https://example.com/i.png\" alt=\"i\">\n"
        .to_string();
    let first = Transform::begin(doc.clone()).unwrap();
    assert_eq!(first.wanted(), Ok(names(&[])));
    let second = first.supply(&names(&[])).unwrap();
    assert_eq!(second.wanted(), Ok(names(&[])));
    let third = second.supply(&names(&[])).unwrap();
    assert_eq!(third.content, doc);
}

#[test]
fn pipeline_code_body_is_taken_out_first() {
    let doc = "{% code lang=\"md\" %}{% hint style=\"info\" %}x{% endhint %}{% endcode %}".to_string();
    let first = Transform::begin(doc).unwrap();
    assert_eq!(first.content, "{% hint style=\"info\" %}x{% endhint %}");
}

#[test]
fn pipeline_rejects_names_that_do_not_pair_off() {
    let doc = "{% file src=\"a.txt\" %}".to_string();
    let first = Transform::begin(doc).unwrap();
    assert!(matches!(first.supply(&names(&[])), Err(RewriteError::Assets)));
}

#[test]
fn pipeline_finished_takes_no_more_names() {
    let done = Transform { content: "text".to_string(), stage: Stage::Finished };
    assert!(matches!(done.supply(&names(&["x"])), Err(RewriteError::Assets)));
    let done = Transform { content: "text".to_string(), stage: Stage::Finished };
    let same = done.supply(&names(&[])).unwrap();
    assert_eq!(same.content, "text");
    assert_eq!(same.stage, Stage::Finished);
}

#[test]
fn hidden_names_begin_with_a_dot() {
    assert!(is_hidden(".git"));
    assert!(is_hidden("."));
    assert!(is_hidden(".hidden.md"));
    assert!(!is_hidden("README.md"));
    assert!(!is_hidden("a.b"));
    assert!(!is_hidden(""));
}

#[test]
fn markdown_files_have_the_extension_md() {
    assert!(is_markdown("md"));
    assert!(!is_markdown("MD"));
    assert!(!is_markdown("mdx"));
    assert!(!is_markdown("m"));
    assert!(!is_markdown(""));
    assert!(!is_markdown("txt"));
}

#[test]
fn file_detail_holds_the_four_paths() {
    let detail = FileDetail {
        file_path: PathBuf::from("docs/guide/intro.md"),
        file_dir: PathBuf::from("docs/guide"),
        output_assets_dir: PathBuf::from("docs-out/guide/intro/assets"),
        output_file_path: PathBuf::from("docs-out/guide/intro/intro.md"),
    };
    assert_eq!(detail.file_dir, PathBuf::from("docs/guide"));
    assert_eq!(detail.output_assets_dir.file_name().unwrap(), "assets");
    assert_eq!(detail.file_path.extension().unwrap(), "md");
    assert_eq!(detail.output_file_path.file_name().unwrap(), "intro.md");
}
