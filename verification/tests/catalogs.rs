use picture_quiz::catalog::{image_url, SERVED_FROM};

#[test]
fn image_is_served_under_its_path_below_static() {
    assert_eq!(image_url("./static/pic/cat.jpg").as_deref(), Some("/pic/cat.jpg"));
    assert_eq!(image_url("./static/pic/two words.jpg").as_deref(), Some("/pic/two words.jpg"));
}

#[test]
fn other_files_are_not_images() {
    assert_eq!(image_url("./static/pic/cat.png"), None);
    assert_eq!(image_url("./static/pic/cat.jpg.txt"), None);
    assert_eq!(image_url("./static/pic/cat.JPG"), None);
    assert_eq!(image_url("./static/pic/catjpg"), None);
    assert_eq!(image_url("./static/pic/"), None);
}

#[test]
fn address_may_be_the_ending_alone() {
    assert_eq!(image_url("./static.jpg").as_deref(), Some(".jpg"));
    assert_eq!(image_url("./static"), None);
    assert_eq!(image_url("./staticjpg"), None);
}

#[test]
fn address_keeps_characters_of_several_bytes() {
    assert_eq!(image_url("./static/pic/été.jpg").as_deref(), Some("/pic/été.jpg"));
    assert_eq!(image_url("./stäti/pic.jpg").as_deref(), Some("/pic.jpg"));
    assert_eq!(image_url("./static/pic/猫.jpg").as_deref(), Some("/pic/猫.jpg"));
}

#[test]
fn served_from_is_the_length_of_the_static_directory() {
    assert_eq!(SERVED_FROM, "./static".len());
}
