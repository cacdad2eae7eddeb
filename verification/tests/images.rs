use areweguiyet_cli::images::{image_files, image_url};

#[test]
fn image_files_are_the_five_icons() {
    assert_eq!(
        image_files(),
        vec![
            "apple-touch-icon.png",
            "favicon-16x16.png",
            "favicon-32x32.png",
            "favicon.svg",
            "favicon.ico",
        ]
    );
}

#[test]
fn image_url_is_the_root_and_the_file() {
    assert_eq!(
        image_url("favicon.svg"),
        "https://raw.githubusercontent.com/rust-lang/www.rust-lang.org/master/static/images/favicon.svg"
    );
}
