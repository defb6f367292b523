use git_changes::signature::strip_signatures;

const BEGIN: &str = "-----BEGIN PGP SIGNATURE-----";
const END: &str = "-----END PGP SIGNATURE-----";

#[test]
fn block_is_removed_with_its_markers() {
    let text = format!("Release notes\n\n{}\n\niQEzBAABCAAdFiEE\n=abcd\n{}\n", BEGIN, END);
    assert_eq!(strip_signatures(&text), "Release notes\n\n\n");
}

#[test]
fn text_around_the_block_stays_as_it_is() {
    let text = format!("  before \t{}anything\nat all{} after  \n", BEGIN, END);
    assert_eq!(strip_signatures(&text), "  before \t after  \n");
}

#[test]
fn text_without_block_stays() {
    for text in ["", "Release notes\n", "-----BEGIN PGP SIGNATURE----", "just - dashes -----"] {
        assert_eq!(strip_signatures(text), text);
    }
}

#[test]
fn block_without_end_or_begin_stays() {
    let open = format!("notes\n{}\nabc\n", BEGIN);
    assert_eq!(strip_signatures(&open), open);
    let closed = format!("notes\n{}\nabc\n", END);
    assert_eq!(strip_signatures(&closed), closed);
    let reversed = format!("a{}b{}c", END, BEGIN);
    assert_eq!(strip_signatures(&reversed), reversed);
}

#[test]
fn block_alone_gives_empty_text() {
    assert_eq!(strip_signatures(&format!("{}{}", BEGIN, END)), "");
    assert_eq!(strip_signatures(&format!("{}\nxyz\n{}", BEGIN, END)), "");
}

#[test]
fn every_block_is_removed() {
    let text = format!("a{}1{}b{}2{}c", BEGIN, END, BEGIN, END);
    assert_eq!(strip_signatures(&text), "abc");
}

#[test]
fn block_ends_at_the_nearest_end_marker() {
    let text = format!("a{}1{}b{}c", BEGIN, END, END);
    assert_eq!(strip_signatures(&text), format!("ab{}c", END));
    let nested = format!("a{}1{}2{}b", BEGIN, BEGIN, END);
    assert_eq!(strip_signatures(&nested), "ab");
}

#[test]
fn other_characters_are_untouched() {
    let text = format!("Grüße — 変更\r\n{}\r\nsig\r\n{}\r\nEnde ✓", BEGIN, END);
    assert_eq!(strip_signatures(&text), "Grüße — 変更\r\n\r\nEnde ✓");
}
