use photo_scraper::names::{
    extension_of_lowercase, first_of, guess_extension, photo_candidates, photo_file,
    photo_file_name, sanitize_filename,
};

#[test]
fn names_become_safe() {
    assert_eq!(sanitize_filename("Ardie Savea"), "Ardie_Savea");
    assert_eq!(sanitize_filename("  New Zealand "), "New_Zealand");
    assert_eq!(sanitize_filename("Antoine Dupont (c)"), "Antoine_Dupont__c_");
    assert_eq!(sanitize_filename("José O'Neil-Smith"), "Jos__O_Neil-Smith");
    assert_eq!(sanitize_filename("../etc/passwd"), "___etc_passwd");
    assert_eq!(sanitize_filename("\tA\n"), "_A_");
    assert_eq!(sanitize_filename("   "), "");
    assert_eq!(sanitize_filename(""), "");
}

#[test]
fn safe_names_stay_as_they_are() {
    for name in ["Ardie Savea", " a/b ", "é", "", "a.b"] {
        let once = sanitize_filename(name);
        assert_eq!(sanitize_filename(&once), once);
        assert!(once.chars().all(|c| c.is_ascii_alphanumeric() || c == '-' || c == '_'));
    }
}

#[test]
fn extensions_are_guessed() {
    assert_eq!(guess_extension("https://x.org/a.png"), "png");
    assert_eq!(guess_extension("https://x.org/a.PNG"), "png");
    assert_eq!(guess_extension("https://x.org/a.WebP"), "webp");
    assert_eq!(guess_extension("https://x.org/a.gif"), "gif");
    assert_eq!(guess_extension("https://x.org/a.jpeg"), "jpg");
    assert_eq!(guess_extension("https://x.org/a.png?x=1"), "jpg");
    assert_eq!(guess_extension("https://x.org/\u{130}.GIF"), "gif");
    assert_eq!(guess_extension(""), "jpg");
}

#[test]
fn small_letters_decide() {
    assert_eq!(extension_of_lowercase("a.png"), "png");
    assert_eq!(extension_of_lowercase("a.PNG"), "jpg");
    assert_eq!(extension_of_lowercase("a.webp"), "webp");
    assert_eq!(extension_of_lowercase("a.gif"), "gif");
}

#[test]
fn photos_have_their_place() {
    assert_eq!(photo_file_name("Ardie Savea", "webp"), "Ardie_Savea.webp");
    let photo = photo_file("New Zealand", "Ardie Savea", "jpg");
    assert_eq!(photo.dir, "New_Zealand");
    assert_eq!(photo.file, "Ardie_Savea.jpg");
}

#[test]
fn photos_are_looked_for_under_every_extension() {
    let files = |first: &str| -> Vec<String> {
        photo_candidates("Fiji", "A B", first).into_iter().map(|p| p.file).collect()
    };
    assert_eq!(files("jpg"), vec!["A_B.jpg", "A_B.png", "A_B.webp", "A_B.gif"]);
    assert_eq!(files("webp"), vec!["A_B.webp", "A_B.jpg", "A_B.png", "A_B.gif"]);
    let some = |s: &str| Some(s.to_string());
    assert_eq!(first_of(vec![None, some("x"), some("y")]), some("x"));
    assert_eq!(first_of(vec![None, None]), None);
    assert_eq!(first_of(Vec::new()), None);
}
