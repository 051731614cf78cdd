use emotitle::title::{
    decoration_is_pinned, emojis_suffix_from_title, original_from_title, title_with_emojis,
    title_with_pinned_segments,
};

#[test]
fn title_with_emojis_joins_with_delimiter() {
    assert_eq!(title_with_emojis("bash", "🚀"), "bash | 🚀");
    assert_eq!(title_with_emojis("", ""), " | ");
}

#[test]
fn original_is_recovered_from_a_decorated_title() {
    for (original, emojis) in [("bash", "🚀"), ("a|b", "x | y"), ("", "📌"), ("tab 1 ", "")] {
        assert_eq!(
            original_from_title(&title_with_emojis(original, emojis)),
            original
        );
    }
    assert_eq!(original_from_title("plain"), "plain");
}

#[test]
fn original_ending_in_half_a_delimiter_is_cut_short() {
    assert_eq!(original_from_title(&title_with_emojis("x |", "y")), "x");
}

#[test]
fn title_with_pinned_segments_keeps_pinned_only() {
    assert_eq!(
        title_with_pinned_segments("build", "build | 🔔 | 📌✅ | 📚"),
        "build | 📌✅"
    );
    assert_eq!(
        title_with_pinned_segments("build", "build | 📌a | x | 📌b"),
        "build | 📌a | 📌b"
    );
    assert_eq!(title_with_pinned_segments("build", "build | 🔔"), "build");
    assert_eq!(title_with_pinned_segments("build", "build"), "build");
}

#[test]
fn title_with_pinned_segments_trims_each_segment() {
    assert_eq!(
        title_with_pinned_segments("build", "build |  📌✅\u{3000} | \t📌"),
        "build | 📌✅ | 📌"
    );
}

#[test]
fn title_that_lost_its_original_is_reset() {
    assert_eq!(title_with_pinned_segments("build", "other | 📌✅"), "build");
}

#[test]
fn suffix_is_what_follows_original_and_delimiter() {
    assert_eq!(emojis_suffix_from_title("bash", "bash | 📌🚀 | x"), "📌🚀 | x");
    assert_eq!(emojis_suffix_from_title("bash", "bash"), "");
    assert_eq!(emojis_suffix_from_title("bash", "zsh | 📌"), "");
}

#[test]
fn decoration_is_pinned_looks_at_every_segment() {
    assert!(decoration_is_pinned("📌🚀"));
    assert!(decoration_is_pinned("🚀 | 📌"));
    assert!(!decoration_is_pinned("🚀📌"));
    assert!(!decoration_is_pinned(""));
}
