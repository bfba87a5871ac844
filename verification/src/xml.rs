use vstd::prelude::*;

use crate::text::{chars_of, push_char};

verus! {

/// `n` spaces.
pub open spec fn spaces(n: nat) -> Seq<char> {
    Seq::new(n, |i: int| ' ')
}

/// What a character becomes in XML text or in an attribute value.
pub open spec fn escape_char(c: char) -> Seq<char> {
    if c == '&' {
        "&amp;"@
    } else if c == '<' {
        "&lt;"@
    } else if c == '>' {
        "&gt;"@
    } else if c == '"' {
        "&quot;"@
    } else if c == '\'' {
        "&apos;"@
    } else {
        seq![c]
    }
}

/// A text with `&`, `<`, `>`, `"` and `'` replaced by their XML entities.
pub open spec fn xml_escaped(s: Seq<char>) -> Seq<char>
    decreases s.len(),
{
    if s.len() == 0 {
        Seq::empty()
    } else {
        xml_escaped(s.drop_last()) + escape_char(s.last())
    }
}

/// What XML text reads as, from the left: each of the entities `&amp;`, `&lt;`, `&gt;`,
/// `&quot;` and `&apos;` stands for its character, and any other character for itself.
pub open spec fn xml_unescaped(s: Seq<char>) -> Seq<char>
    decreases s.len(),
{
    if s.len() == 0 {
        Seq::empty()
    } else if s.len() >= 5 && s.take(5) == "&amp;"@ {
        seq!['&'] + xml_unescaped(s.skip(5))
    } else if s.len() >= 4 && s.take(4) == "&lt;"@ {
        seq!['<'] + xml_unescaped(s.skip(4))
    } else if s.len() >= 4 && s.take(4) == "&gt;"@ {
        seq!['>'] + xml_unescaped(s.skip(4))
    } else if s.len() >= 6 && s.take(6) == "&quot;"@ {
        seq!['"'] + xml_unescaped(s.skip(6))
    } else if s.len() >= 6 && s.take(6) == "&apos;"@ {
        seq!['\''] + xml_unescaped(s.skip(6))
    } else {
        seq![s[0]] + xml_unescaped(s.drop_first())
    }
}

/// A line holding one element with text content.
pub open spec fn element_text(indent: nat, name: Seq<char>, value: Seq<char>) -> Seq<char> {
    spaces(indent) + "<"@ + name + ">"@ + xml_escaped(value) + "</"@ + name + ">\n"@
}

/// The attributes of an element, each written as ` key="value"`.
pub open spec fn attributes_text(attrs: Seq<(Seq<char>, Seq<char>)>) -> Seq<char>
    decreases attrs.len(),
{
    if attrs.len() == 0 {
        Seq::empty()
    } else {
        attributes_text(attrs.drop_last()) + " "@ + attrs.last().0 + "=\""@ + xml_escaped(
            attrs.last().1,
        ) + "\""@
    }
}

/// A line holding one empty element with attributes.
pub open spec fn empty_element_text(
    indent: nat,
    name: Seq<char>,
    attrs: Seq<(Seq<char>, Seq<char>)>,
) -> Seq<char> {
    spaces(indent) + "<"@ + name + attributes_text(attrs) + " />\n"@
}

/// The views of a list of attributes.
pub open spec fn attrs_view(attrs: Seq<(&str, &str)>) -> Seq<(Seq<char>, Seq<char>)> {
    attrs.map_values(|a: (&str, &str)| (a.0@, a.1@))
}

/// Appends `indent` spaces.
pub fn indent_spaces(xml: &mut String, indent: usize)
    ensures
        final(xml)@ == old(xml)@ + spaces(indent as nat),
{
    for i in 0..indent
        invariant
            xml@ == old(xml)@ + spaces(i as nat),
    {
        push_char(xml, ' ');
        assert(xml@ =~= old(xml)@ + spaces((i + 1) as nat));
    }
}

/// `value` with the XML special characters replaced by entities.
pub fn xml_escape(value: &str) -> (r: String)
    ensures
        r@ == xml_escaped(value@),
{
    let chars = chars_of(value);
    let mut r = String::new();
    for i in 0..chars.len()
        invariant
            chars@ == value@,
            r@ == xml_escaped(chars@.take(i as int)),
    {
        let c = chars[i];
        assert(chars@.take(i + 1).drop_last() =~= chars@.take(i as int));
        if c == '&' {
            r.append("&amp;");
        } else if c == '<' {
            r.append("&lt;");
        } else if c == '>' {
            r.append("&gt;");
        } else if c == '"' {
            r.append("&quot;");
        } else if c == '\'' {
            r.append("&apos;");
        } else {
            push_char(&mut r, c);
            assert(r@ =~= xml_escaped(chars@.take(i + 1)));
        }
    }
    assert(chars@.take(chars.len() as int) =~= chars@);
    r
}

/// Appends `<name>value</name>` on a line of its own, indented, with `value` escaped.
pub fn element(xml: &mut String, indent: usize, name: &str, value: &str)
    ensures
        final(xml)@ == old(xml)@ + element_text(indent as nat, name@, value@),
{
    indent_spaces(xml, indent);
    push_char(xml, '<');
    xml.append(name);
    push_char(xml, '>');
    let escaped = xml_escape(value);
    xml.append(escaped.as_str());
    xml.append("</");
    xml.append(name);
    xml.append(">\n");
    assert(seq!['<'] == "<"@) by {
        reveal_strlit("<");
    }
    assert(seq!['>'] == ">"@) by {
        reveal_strlit(">");
    }
    assert(xml@ =~= old(xml)@ + element_text(indent as nat, name@, value@));
}

/// Appends `<name key="value" ... />` on a line of its own, indented, with the values escaped.
pub fn empty_element_attr(xml: &mut String, indent: usize, name: &str, attrs: &[(&str, &str)])
    ensures
        final(xml)@ == old(xml)@ + empty_element_text(indent as nat, name@, attrs_view(attrs@)),
{
    indent_spaces(xml, indent);
    push_char(xml, '<');
    xml.append(name);
    let ghost head = xml@;
    for i in 0..attrs.len()
        invariant
            xml@ == head + attributes_text(attrs_view(attrs@).take(i as int)),
    {
        let (key, value) = attrs[i];
        assert(attrs_view(attrs@).take(i + 1).drop_last() =~= attrs_view(attrs@).take(i as int));
        push_char(xml, ' ');
        xml.append(key);
        xml.append("=\"");
        let escaped = xml_escape(value);
        xml.append(escaped.as_str());
        push_char(xml, '"');
        assert(seq![' '] == " "@) by {
            reveal_strlit(" ");
        }
        assert(seq!['"'] == "\""@) by {
            reveal_strlit("\"");
        }
        assert(xml@ =~= head + attributes_text(attrs_view(attrs@).take(i + 1)));
    }
    assert(attrs_view(attrs@).take(attrs.len() as int) =~= attrs_view(attrs@));
    xml.append(" />\n");
    assert(seq!['<'] == "<"@) by {
        reveal_strlit("<");
    }
    assert(xml@ =~= old(xml)@ + empty_element_text(indent as nat, name@, attrs_view(attrs@)));
}

} // verus!
