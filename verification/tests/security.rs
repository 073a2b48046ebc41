use aj_studying::security::escape_html;

#[test]
fn test_escape_html() {
    let input = "<script>alert('hello')</script>";
    let expected = "&lt;script&gt;alert(&#x27;hello&#x27;)&lt;&#x2F;script&gt;";
    assert_eq!(escape_html(input), expected);
}

#[test]
fn test_escape_html_with_space() {
    let input = "hello world";
    let expected = "hello&nbsp;world";
    assert_eq!(escape_html(input), expected);
}

#[test]
fn test_escape_html_with_special_characters() {
    let input = "<script>alert('hello')</script> &";
    let expected = "&lt;script&gt;alert(&#x27;hello&#x27;)&lt;&#x2F;script&gt;&nbsp;&amp;";
    assert_eq!(escape_html(input), expected);
}

#[test]
fn test_six_spaces() {
    let input = "      ";
    let expected = "&nbsp;&nbsp;&nbsp;&nbsp;&nbsp;&nbsp;";
    assert_eq!(escape_html(input), expected);
}

#[test]
fn test_escape_html_with_space_and_special_characters() {
    let input = "<script>alert('hello')</script> & world";
    let expected =
        "&lt;script&gt;alert(&#x27;hello&#x27;)&lt;&#x2F;script&gt;&nbsp;&amp;&nbsp;world";
    assert_eq!(escape_html(input), expected);
}

#[test]
fn test_escape_html_with_space_and_special_characters_and_space() {
    let input = "<script>alert('hello')</script> & world ";
    let expected =
        "&lt;script&gt;alert(&#x27;hello&#x27;)&lt;&#x2F;script&gt;&nbsp;&amp;&nbsp;world&nbsp;";
    assert_eq!(escape_html(input), expected);
}

#[test]
fn test_dom_xss() {
    let input =
        "<script>Docuemnt.getElementById('demo').innerHTML = 'Hello World!'</script> & world ";
    let expected = "&lt;script&gt;Docuemnt.getElementById(&#x27;demo&#x27;).innerHTML&nbsp;&#x3D;&nbsp;&#x27;Hello&nbsp;World&#x21;&#x27;&lt;&#x2F;script&gt;&nbsp;&amp;&nbsp;world&nbsp;";
    assert_eq!(escape_html(input), expected);
}

#[test]
fn test_dom_xss_with_space() {
    let input =
        "<script>Docuemnt.getElementById('demo').innerHTML = 'Hello World!'</script> & world";
    let expected = "&lt;script&gt;Docuemnt.getElementById(&#x27;demo&#x27;).innerHTML&nbsp;&#x3D;&nbsp;&#x27;Hello&nbsp;World&#x21;&#x27;&lt;&#x2F;script&gt;&nbsp;&amp;&nbsp;world";
    assert_eq!(escape_html(input), expected);
}

#[test]
fn escape_html_passes_plain_text_through() {
    assert_eq!(escape_html("plain"), "plain");
    assert_eq!(escape_html(""), "");
}

#[test]
fn escape_html_handles_every_mapped_character() {
    assert_eq!(
        escape_html("&<>\"'/`=!#$%"),
        "&amp;&lt;&gt;&#x22;&#x27;&#x2F;&grave;&#x3D;&#x21;&#x23;&#x24;&#x25;"
    );
}

#[test]
fn escape_html_keeps_unicode_untouched() {
    assert_eq!(escape_html("héllo"), "héllo");
}
