use smartypants::smartypants;
use smartypants::unescape_text;
use smartypants::unsmart;
use smartypants::{Backtick, Cli, Dash, Opts, Unsmart};

fn make_default_opts() -> Opts {
    Opts {
        quotes: true,
        backticks: Backtick::Ignore,
        dashes: Dash::Basic,
        ellipses: false,
        quot: false,
        unsmart: Unsmart::Ignore,
    }
}

// A degenerate quote token after a token ending in whitespace opens; after a
// non-whitespace character it closes; at document start it opens.
#[test]
fn test_degenerate_quote_tokens() {
    let opts = make_default_opts();
    assert_eq!(smartypants("x<b></b>'", &opts), "x<b></b>&#8217;");
    assert_eq!(smartypants("x <b></b>'", &opts), "x <b></b>&#8216;");
    assert_eq!(smartypants("x<b></b>\"", &opts), "x<b></b>&#8221;");
    assert_eq!(smartypants("x <b></b>\"", &opts), "x <b></b>&#8220;");
    assert_eq!(smartypants("<b></b>'", &opts), "<b></b>&#8216;");
}

#[test]
fn test_ellipses() {
    let mut opts = make_default_opts();
    opts.ellipses = true;
    assert_eq!(smartypants("Wait... or . . . wait", &opts), "Wait&#8230; or &#8230; wait");
    opts.ellipses = false;
    assert_eq!(smartypants("Wait...", &opts), "Wait...");
}

#[test]
fn test_unescape_text() {
    assert_eq!(unescape_text(r"\\"), "&#92;");
    assert_eq!(unescape_text("\\\""), "&#34;");
    assert_eq!(unescape_text(r"\'"), "&#39;");
    assert_eq!(unescape_text(r"\."), "&#46;");
    assert_eq!(unescape_text(r"\-"), "&#45;");
    assert_eq!(unescape_text(r"\`"), "&#96;");
    assert_eq!(unescape_text(r"a\'b"), "a&#39;b");
}

// An escaped quote is forced literal: it is not smartened.
#[test]
fn test_escaped_punctuation_kept() {
    let opts = make_default_opts();
    assert_eq!(smartypants(r"It\'s", &opts), "It&#39;s");
    assert_eq!(smartypants(r"a \-- b", &opts), "a &#45;- b");
}

#[test]
fn test_unsmart_direct() {
    assert_eq!(unsmart("&#8211;", &Unsmart::ASCII), "-");
    assert_eq!(unsmart("&#8212;", &Unsmart::ASCII), "--");
    assert_eq!(unsmart("&#8216;x&#8217;", &Unsmart::ASCII), "'x'");
    assert_eq!(unsmart("&#8220;x&#8221;", &Unsmart::ASCII), "\"x\"");
    assert_eq!(unsmart("&#8230;", &Unsmart::ASCII), "...");
    assert_eq!(unsmart("&#8211;", &Unsmart::UTF8), "\u{2013}");
    assert_eq!(unsmart("&#8212;", &Unsmart::UTF8), "\u{2014}");
    assert_eq!(unsmart("&#8216;", &Unsmart::UTF8), "\u{2018}");
    assert_eq!(unsmart("&#8217;", &Unsmart::UTF8), "\u{2019}");
    assert_eq!(unsmart("&#8230;", &Unsmart::UTF8), "\u{2026}");
    assert_eq!(unsmart("&#8211;", &Unsmart::Named), "&ndash;");
    assert_eq!(unsmart("&#8230;", &Unsmart::Named), "&hellip;");
    assert_eq!(unsmart("plain text", &Unsmart::Named), "plain text");
    assert_eq!(unsmart("&#8212;", &Unsmart::Ignore), "&#8212;");
}

// Deferred rendering agrees with immediate rendering: processing with
// markers kept and rendering afterwards equals selecting the mode up front.
#[test]
fn test_round_trip_rendering() {
    let text = "He said \"it's -- well... `fine`\" <b>then</b> left";
    let mut opts = Opts {
        quotes: true,
        backticks: Backtick::All,
        dashes: Dash::Old,
        ellipses: true,
        quot: true,
        unsmart: Unsmart::Ignore,
    };
    let kept = smartypants(text, &opts);
    for mode in [Unsmart::ASCII, Unsmart::UTF8, Unsmart::Named] {
        opts.unsmart = mode;
        assert_eq!(smartypants(text, &opts), unsmart(&kept, &mode));
    }
}

// The marker form of the output holds only numeric entities, never raw
// curly characters.
#[test]
fn test_markers_stay_numeric() {
    let opts = Opts {
        quotes: true,
        backticks: Backtick::All,
        dashes: Dash::Old,
        ellipses: true,
        quot: true,
        unsmart: Unsmart::Ignore,
    };
    let out = smartypants("\"it's -- done...\"", &opts);
    for c in ['\u{2013}', '\u{2014}', '\u{2018}', '\u{2019}', '\u{201c}', '\u{201d}', '\u{2026}'] {
        assert!(!out.contains(c));
    }
    assert_eq!(out, "&#8220;it&#8217;s &#8211; done&#8230;&#8221;");
}

// Same-name nesting: an inner verbatim tag of the same name keeps the
// region suppressed until both are closed.
#[test]
fn test_same_name_nesting() {
    let opts = make_default_opts();
    let text = r#"<pre><pre>"x"</pre>"y"</pre><i>"z"</i>"#;
    let want = r#"<pre><pre>"x"</pre>"y"</pre><i>&#8220;z&#8221;</i>"#;
    assert_eq!(smartypants(text, &opts), want);
}

// An unmatched closing verbatim tag is ignored.
#[test]
fn test_unmatched_close_ignored() {
    let opts = make_default_opts();
    assert_eq!(smartypants(r#"</pre>"a""#, &opts), r#"</pre>&#8220;a&#8221;"#);
}

// A `<` with no later `>` never starts a tag: the rest is one text token.
#[test]
fn test_unclosed_angle_is_text() {
    let opts = make_default_opts();
    assert_eq!(smartypants("5 < 6 -- ok", &opts), "5 < 6 &#8212; ok");
}

// With every switch off, any document passes through byte for byte.
#[test]
fn test_all_off_is_identity() {
    let opts = Opts {
        quotes: false,
        backticks: Backtick::Ignore,
        dashes: Dash::Ignore,
        ellipses: false,
        quot: false,
        unsmart: Unsmart::Ignore,
    };
    for text in [
        "plain -- \"text\" with 'quotes'...",
        "<!-- -- -- -->",
        "a < b",
        "<pre>`x`</pre> `y`",
    ] {
        assert_eq!(smartypants(text, &opts), text);
    }
}

#[test]
fn test_empty_input() {
    let opts = make_default_opts();
    assert_eq!(smartypants("", &opts), "");
    assert_eq!(unescape_text(""), "");
    assert_eq!(unsmart("", &Unsmart::ASCII), "");
}

// A leading quote followed by punctuation that does not run into a word
// force-closes: the token begins with the tail of a quotation.
#[test]
fn test_leading_quote_force_close() {
    let opts = make_default_opts();
    assert_eq!(smartypants("'!!", &opts), "&#8217;!!");
    assert_eq!(smartypants("\"!!", &opts), "&#8221;!!");
}

#[test]
fn test_opts_from_cli() {
    let cli = Cli {
        input: String::from("in.txt"),
        output: String::from("out.txt"),
        quot: true,
        quotes: false,
        backticks: Backtick::Double,
        dashes: Dash::Invert,
        ellipses: true,
        unsmart: Unsmart::Named,
    };
    let o = Opts::from(&cli);
    assert!(o.quot);
    assert!(!o.quotes);
    assert!(matches!(o.backticks, Backtick::Double));
    assert!(matches!(o.dashes, Dash::Invert));
    assert!(o.ellipses);
    assert!(matches!(o.unsmart, Unsmart::Named));
}
