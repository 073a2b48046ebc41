//! HTML escaping for user-supplied text. Each character with a meaning in
//! HTML is replaced by an entity; everything else passes through unchanged.

use vstd::prelude::*;

use crate::text::push_char;

verus! {

/// The replacement for one character: an entity for the characters that
/// carry meaning in HTML (including the space, so that runs of blanks
/// survive rendering), the character itself otherwise.
pub open spec fn escape_char(c: char) -> Seq<char> {
    if c == '&' {
        seq!['&', 'a', 'm', 'p', ';']
    } else if c == '<' {
        seq!['&', 'l', 't', ';']
    } else if c == '>' {
        seq!['&', 'g', 't', ';']
    } else if c == '"' {
        seq!['&', '#', 'x', '2', '2', ';']
    } else if c == '\'' {
        seq!['&', '#', 'x', '2', '7', ';']
    } else if c == '/' {
        seq!['&', '#', 'x', '2', 'F', ';']
    } else if c == '`' {
        seq!['&', 'g', 'r', 'a', 'v', 'e', ';']
    } else if c == '=' {
        seq!['&', '#', 'x', '3', 'D', ';']
    } else if c == ' ' {
        seq!['&', 'n', 'b', 's', 'p', ';']
    } else if c == '!' {
        seq!['&', '#', 'x', '2', '1', ';']
    } else if c == '#' {
        seq!['&', '#', 'x', '2', '3', ';']
    } else if c == '$' {
        seq!['&', '#', 'x', '2', '4', ';']
    } else if c == '%' {
        seq!['&', '#', 'x', '2', '5', ';']
    } else {
        seq![c]
    }
}

/// The escaped form of a whole string: each character replaced in order.
pub open spec fn escape_seq(s: Seq<char>) -> Seq<char>
    decreases s.len(),
{
    if s.len() == 0 {
        Seq::empty()
    } else {
        escape_char(s[0]) + escape_seq(s.skip(1))
    }
}

/// Escaping distributes over taking one more character at the front's end.
proof fn lemma_escape_snoc(s: Seq<char>, i: int)
    requires
        0 <= i < s.len(),
    ensures
        escape_seq(s.take(i + 1)) == escape_seq(s.take(i)) + escape_char(s[i]),
    decreases i,
{
    if i == 0 {
        assert(s.take(1) =~= seq![s[0]]);
        assert(s.take(1).skip(1) =~= Seq::<char>::empty());
        assert(s.take(0) =~= Seq::<char>::empty());
        assert(escape_seq(s.take(1)) =~= escape_seq(s.take(0)) + escape_char(s[0]));
    } else {
        lemma_escape_snoc(s.skip(1), i - 1);
        assert(s.take(i + 1).skip(1) =~= s.skip(1).take(i));
        assert(s.take(i).skip(1) =~= s.skip(1).take(i - 1));
        assert(s.take(i + 1)[0] == s[0]);
        assert(s.take(i)[0] == s[0]);
        assert(s.skip(1)[i - 1] == s[i]);
        assert(escape_seq(s.take(i + 1)) == escape_char(s[0]) + escape_seq(s.skip(1).take(i)));
        assert(escape_seq(s.take(i)) == escape_char(s[0]) + escape_seq(s.skip(1).take(i - 1)));
        assert(escape_char(s[0]) + (escape_seq(s.skip(1).take(i - 1)) + escape_char(s[i]))
            =~= (escape_char(s[0]) + escape_seq(s.skip(1).take(i - 1))) + escape_char(s[i]));
    }
}

/// Append the escaped form of one character to `out`.
fn push_escaped(out: &mut String, c: char)
    ensures
        final(out)@ == old(out)@ + escape_char(c),
{
    let e: &str = if c == '&' {
        "&amp;"
    } else if c == '<' {
        "&lt;"
    } else if c == '>' {
        "&gt;"
    } else if c == '"' {
        "&#x22;"
    } else if c == '\'' {
        "&#x27;"
    } else if c == '/' {
        "&#x2F;"
    } else if c == '`' {
        "&grave;"
    } else if c == '=' {
        "&#x3D;"
    } else if c == ' ' {
        "&nbsp;"
    } else if c == '!' {
        "&#x21;"
    } else if c == '#' {
        "&#x23;"
    } else if c == '$' {
        "&#x24;"
    } else if c == '%' {
        "&#x25;"
    } else {
        push_char(out, c);
        assert(final(out)@ =~= old(out)@ + escape_char(c));
        return ;
    };
    proof {
        reveal_strlit("&amp;");
        reveal_strlit("&lt;");
        reveal_strlit("&gt;");
        reveal_strlit("&#x22;");
        reveal_strlit("&#x27;");
        reveal_strlit("&#x2F;");
        reveal_strlit("&grave;");
        reveal_strlit("&#x3D;");
        reveal_strlit("&nbsp;");
        reveal_strlit("&#x21;");
        reveal_strlit("&#x23;");
        reveal_strlit("&#x24;");
        reveal_strlit("&#x25;");
    }
    out.append(e);
    assert(final(out)@ =~= old(out)@ + escape_char(c));
}

/// Escape `input` for safe inclusion in an HTML document.
#[must_use]
pub fn escape_html(input: &str) -> (result: String)
    ensures
        result@ == escape_seq(input@),
{
    let len = input.unicode_len();
    let mut result = String::new();
    let mut i: usize = 0;
    while i < len
        invariant
            i <= len,
            len == input@.len(),
            result@ == escape_seq(input@.take(i as int)),
        decreases len - i,
    {
        let c = input.get_char(i);
        push_escaped(&mut result, c);
        proof {
            lemma_escape_snoc(input@, i as int);
        }
        i = i + 1;
    }
    assert(input@.take(len as int) =~= input@);
    result
}

} // verus!
