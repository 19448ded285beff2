use smartypants::smartypants;
use smartypants::{Backtick, Dash, Opts, Unsmart};

fn make_default_opts() -> Opts {
    Opts {
        quotes: true,
        backticks: Backtick::Ignore,
        dashes: Dash::Basic,
        ellipses: false,
        quot: false,
        unsmart: Unsmart::Ignore,
    }
}

#[test]
fn test_dates() {
    let opts = make_default_opts();

    assert_eq!(smartypants("1230-40's", &opts), "1230-40&#8217;s");
    assert_eq!(smartypants("1230-'40s", &opts), "1230-&#8216;40s");
    assert_eq!(smartypants("1230--'40s", &opts), "1230&#8212;&#8216;40s");
    assert_eq!(smartypants("1990s", &opts), "1990s");
    assert_eq!(smartypants("1990's", &opts), "1990&#8217;s");
    assert_eq!(smartypants("foo bar '40s", &opts), "foo bar &#8216;40s");
    assert_eq!(smartypants("'90s", &opts), "&#8216;90s");
}

#[test]
// test that everything inside a skipped tag remains untouched
fn test_skip_tags() {
    let opts = Opts {
        quotes: true,
        backticks: Backtick::All,
        dashes: Dash::Old,
        ellipses: true,
        quot: true,
        unsmart: Unsmart::Ignore,
    };

    const TEXT: &str = r#"<script type="text/javascript">
            document.write(' `${window.location}` <a href="' + "http://www.duckduckgo.com" + '">' + "smartypants" + "</a>");
            </script>"#;

    let t = smartypants(TEXT, &opts);
    assert_eq!(t, TEXT);

    const TEXT2: &str = r#"<pre>"''"<a>'""`'"<b>'""'...'"`"''<////>'''```""'"""'""</pre>"#;
    let t = smartypants(TEXT2, &opts);
    assert_eq!(t, TEXT2);

    const TEXT3: &str = r#"<pre>"""""</pre><div>"hi"</div><pre>"""""</pre>"#;
    const WANT3: &str = r#"<pre>"""""</pre><div>&#8220;hi&#8221;</div><pre>"""""</pre>"#;
    let t = smartypants(TEXT3, &opts);
    assert_eq!(t, WANT3);
}

#[test]
fn test_quot() {
    let mut opts = make_default_opts();

    let text = "<p>The Professor said &quot;Let's see...&quot; This is the problem <code>if true{\n\t //&quot;Okay&quot;</code></p>";

    let t = smartypants(text, &opts);
    let e = "<p>The Professor said &quot;Let&#8217;s see...&quot; This is the problem <code>if true{\n\t //&quot;Okay&quot;</code></p>";
    assert_eq!(t, e);

    // convert html &quot; to ascii "
    opts.quot = true;
    opts.quotes = false;
    let t = smartypants(text, &opts);
    let e = "<p>The Professor said \"Let\'s see...\" This is the problem <code>if true{\n\t //&quot;Okay&quot;</code></p>";
    assert_eq!(t, e);

    // convert &quot; to ", then " to fancy quotes
    opts.quotes = true;
    let t = smartypants(text, &opts);
    let e = "<p>The Professor said &#8220;Let&#8217;s see...&#8221; This is the problem <code>if true{\n\t //&quot;Okay&quot;</code></p>";
    assert_eq!(t, e);
}

#[test]
fn test_backticks() {
    let mut opts = make_default_opts();
    opts.backticks = Backtick::Double;
    let t = smartypants("``bar`` but not `bar`", &opts);
    assert_eq!(t, r#"&#8220;bar&#8220; but not `bar`"#);

    opts.backticks = Backtick::Single;
    let t = smartypants("`bar` and dbl ``bar``", &opts);
    assert_eq!(t, r#"&#8216;bar&#8216; and dbl &#8216;&#8216;bar&#8216;&#8216;"#);

    opts.backticks = Backtick::All;
    let t = smartypants("`bar` and ``bar``", &opts);
    assert_eq!(t, r#"&#8216;bar&#8216; and &#8220;bar&#8220;"#);
}

#[test]
fn test_dashes() {
    let mut opts = make_default_opts();

    opts.dashes = Dash::Basic;
    let t = smartypants("This is em-dash -- but not this ---", &opts);
    assert_eq!(t, "This is em-dash &#8212; but not this ---");

    opts.dashes = Dash::Old;
    let t = smartypants("This is en-dash -- this is em-dash ---", &opts);
    assert_eq!(t, "This is en-dash &#8211; this is em-dash &#8212;");

    opts.dashes = Dash::Invert;
    let t = smartypants("This is en-dash -- this is em-dash ---", &opts);
    assert_eq!(t, "This is en-dash &#8212; this is em-dash &#8211;");
}

#[test]
fn test_comments() {
    let opts = make_default_opts();

    assert_eq!(smartypants("--", &opts), "&#8212;");
    assert_eq!(smartypants("-->", &opts), "&#8212;>");
    assert_eq!(smartypants("-- \t  >", &opts), "&#8212; \t  >");

    // convert -- outside comment
    const TEXT: &str = r#"<!-- "bing" --> beep--boop <!-- "bang" -->"#;
    let t = smartypants(TEXT, &opts);
    const WANT: &str = r#"<!-- "bing" --> beep&#8212;boop <!-- "bang" -->"#;
    assert_eq!(t, WANT);

    // convert " outside comment
    const TEXT2: &str = r#"<p>foo -- "bar"<!-- baz-qux\n<p>beep "boop"</p>\n-->\n</p>"#;
    let t = smartypants(TEXT2, &opts);
    const WANT2: &str = r#"<p>foo &#8212; &#8220;bar&#8221;<!-- baz-qux\n<p>beep "boop"</p>\n-->\n</p>"#;
    assert_eq!(t, WANT2);

    // nothing should be converted inside comments
    for text in [
        "<!-- this is a comment -->",
        "<!-- <li>foo-bar-baz-qux</li> -->",
        r#"<!-- "beep" --> <!-- "boop" -->"#,
    ] {
        assert_eq!(smartypants(text, &opts), text)
    }

    // not valid comments, so convert
    assert_eq!(
        smartypants("<!-- -- -- -->", &opts),
        "<!&#8212; &#8212; &#8212; &#8212;>"
    );
    assert_eq!(smartypants("<!-- -- -- \t >", &opts), "<!&#8212; &#8212; &#8212; \t >");
}

#[test]
fn test_unsmart_entities() {
    let mut opts = make_default_opts();
    opts.unsmart = Unsmart::UTF8;
    assert_eq!(smartypants(r#""quote here""#, &opts), "\u{201c}quote here\u{201d}");

    opts.unsmart = Unsmart::Named;
    assert_eq!(smartypants(r#""quote here""#, &opts), "&ldquo;quote here&rdquo;");

    opts.unsmart = Unsmart::ASCII;
    assert_eq!(smartypants(r#""quote here""#, &opts), r#""quote here""#);
}
