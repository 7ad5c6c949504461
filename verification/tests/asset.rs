use gitbook2md::asset::{
    asset_destination, asset_reference, classify, normalized_name, Reference,
};

#[test]
fn normalized_name_replaces_every_space() {
    assert_eq!(normalized_name("My File.png"), "My_File.png");
    assert_eq!(normalized_name(" a  b "), "_a__b_");
}

#[test]
fn normalized_name_keeps_other_characters() {
    assert_eq!(normalized_name("diagram.png"), "diagram.png");
    assert_eq!(normalized_name("tab\there_ü.txt"), "tab\there_ü.txt");
    assert_eq!(normalized_name(""), "");
}

#[test]
fn asset_reference_points_into_assets() {
    assert_eq!(asset_reference("My File.png"), "assets/My_File.png");
    assert_eq!(asset_reference("diagram.png"), "assets/diagram.png");
}

#[test]
fn asset_destination_joins_directory_and_normalized_name() {
    assert_eq!(
        asset_destination("docs-out/guide/assets", "My File.png"),
        "docs-out/guide/assets/My_File.png"
    );
    assert_eq!(asset_destination("", "a.txt"), "/a.txt");
}

#[test]
fn classify_absolute_urls_as_remote() {
    assert_eq!(classify("https://example.com/a.png"), Reference::Remote);
    assert_eq!(classify("http://example.com"), Reference::Remote);
    assert_eq!(classify("ftp://host/file.bin"), Reference::Remote);
    assert_eq!(classify("mailto:someone@example.com"), Reference::Remote);
}

#[test]
fn classify_paths_as_local() {
    assert_eq!(classify("./diagram.png"), Reference::Local);
    assert_eq!(classify("../files/My File.pdf"), Reference::Local);
    assert_eq!(classify("diagram.png"), Reference::Local);
    assert_eq!(classify("/abs/path.png"), Reference::Local);
    assert_eq!(classify(""), Reference::Local);
}
