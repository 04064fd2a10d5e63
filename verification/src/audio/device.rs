//! Identity of the audio device the microphone engine is bound to.

use vstd::prelude::*;
use crate::text::{
    chars_of, code_of, control, digit_char, digits, is_control, owned, padded_digits, zero_padded,
};

verus! {

/// The bound input device's identity, as far as CoreAudio would report it.
///
/// Both fields are `Option` because the two property reads fail independently. A UID with
/// no name still separates two same-named devices.
#[derive(Debug, Clone, PartialEq, Eq)]
pub struct InputDevice {
    pub name: Option<String>,
    pub uid: Option<String>,
}

/// How one character is written in a log record.
pub open spec fn escaped_char(c: char) -> Seq<char> {
    if c == '\\' {
        seq!['\\', '\\']
    } else if c == '"' {
        seq!['\\', '"']
    } else if c == '\n' {
        seq!['\\', 'n']
    } else if c == '\r' {
        seq!['\\', 'r']
    } else if c == '\t' {
        seq!['\\', 't']
    } else if control(c) {
        seq!['\\', 'u', '{'] + zero_padded(digits(c as nat, 16), 4) + seq!['}']
    } else {
        seq![c]
    }
}

/// How a text is written in a log record.
pub open spec fn escaped(s: Seq<char>) -> Seq<char>
    decreases s.len(),
{
    if s.len() == 0 {
        Seq::empty()
    } else {
        escaped(s.drop_last()) + escaped_char(s.last())
    }
}

/// A field's value in a log record: escaped, or `unknown` where there is none.
pub open spec fn field(value: Option<String>) -> Seq<char> {
    match value {
        Some(s) => escaped(s@),
        None => "unknown"@,
    }
}

/// Escapes a device string so one log record stays on one line.
///
/// Device names are user-editable in Audio MIDI Setup and UIDs are opaque, so neither is safe
/// to interpolate raw.
pub fn escape(value: &str) -> (r: String)
    ensures
        r@ == escaped(value@),
{
    let chars = chars_of(value);
    let mut out = String::new();
    let mut i: usize = 0;
    while i < chars.len()
        invariant
            i <= chars.len(),
            out@ == escaped(chars@.take(i as int)),
        decreases chars.len() - i,
    {
        let c = chars[i];
        let ghost before = out@;
        if c == '\\' {
            out.push('\\');
            out.push('\\');
        } else if c == '"' {
            out.push('\\');
            out.push('"');
        } else if c == '\n' {
            out.push('\\');
            out.push('n');
        } else if c == '\r' {
            out.push('\\');
            out.push('r');
        } else if c == '\t' {
            out.push('\\');
            out.push('t');
        } else if is_control(c) {
            out.push('\\');
            out.push('u');
            out.push('{');
            out.append(padded_digits(code_of(c) as u64, 16, 4).as_str());
            out.push('}');
        } else {
            out.push(c);
        }
        proof {
            assert(out@ =~= before + escaped_char(c));
            assert(chars@.take(i + 1).drop_last() =~= chars@.take(i as int));
        }
        i += 1;
    }
    proof {
        assert(chars@.take(chars@.len() as int) =~= chars@);
    }
    out
}

fn rendered_field(value: &Option<String>) -> (r: String)
    ensures
        r@ == field(*value),
{
    match value {
        Some(s) => escape(s.as_str()),
        None => owned("unknown"),
    }
}

/// The device's fields of a log record.
pub fn render_fields(device: &InputDevice) -> (r: String)
    ensures
        r@ == "device_name=\""@ + field(device.name) + "\" device_uid=\""@ + field(device.uid)
            + "\""@,
{
    let mut out = String::new();
    out.append("device_name=\"");
    proof {
        assert(out@ =~= "device_name=\""@);
    }
    out.append(rendered_field(&device.name).as_str());
    out.append("\" device_uid=\"");
    out.append(rendered_field(&device.uid).as_str());
    out.append("\"");
    out
}

/// Whether a text holds no control character.
pub open spec fn one_line(s: Seq<char>) -> bool {
    forall|i: int| 0 <= i < s.len() ==> !control(#[trigger] s[i])
}

proof fn lemma_digits_are_plain(n: nat)
    ensures
        one_line(digits(n, 16)),
        forall|i: int|
            0 <= i < digits(n, 16).len() ==> #[trigger] digits(n, 16)[i] != '"' && digits(
                n,
                16,
            )[i] != '\\',
    decreases n,
{
    if n >= 16 {
        lemma_digits_are_plain(n / 16);
    }
}

proof fn lemma_escaped_char_is_one_line(c: char)
    ensures
        one_line(escaped_char(c)),
        escaped_char(c).len() > 0,
{
    lemma_digits_are_plain(c as nat);
}

/// A rendered text holds no control character: one record stays on one line.
pub proof fn an_escaped_text_is_one_line(s: Seq<char>)
    ensures
        one_line(escaped(s)),
    decreases s.len(),
{
    if s.len() > 0 {
        an_escaped_text_is_one_line(s.drop_last());
        lemma_escaped_char_is_one_line(s.last());
    }
}

/// Whether every double quote in the text stands right after a backslash.
pub open spec fn quotes_are_guarded(s: Seq<char>) -> bool {
    forall|i: int| 0 <= i < s.len() && #[trigger] s[i] == '"' ==> i > 0 && s[i - 1] == '\\'
}

/// A rendered text cannot end its field: each quote in it follows a backslash.
pub proof fn an_escaped_text_guards_its_quotes(s: Seq<char>)
    ensures
        quotes_are_guarded(escaped(s)),
    decreases s.len(),
{
    if s.len() > 0 {
        an_escaped_text_guards_its_quotes(s.drop_last());
        lemma_digits_are_plain(s.last() as nat);
        let head = escaped(s.drop_last());
        let tail = escaped_char(s.last());
        assert forall|i: int| 0 <= i < escaped(s).len() && #[trigger] escaped(s)[i]
            == '"' implies i > 0 && escaped(s)[i - 1] == '\\' by {
            if i < head.len() {
                assert(head[i] == '"');
            } else {
                assert(tail[i - head.len()] == '"');
            }
        }
    }
}

proof fn lemma_escaped_front(s: Seq<char>)
    requires
        s.len() > 0,
    ensures
        escaped(s) == escaped_char(s[0]) + escaped(s.drop_first()),
    decreases s.len(),
{
    if s.len() == 1 {
        assert(s.drop_last() =~= Seq::<char>::empty());
        assert(s.drop_first() =~= Seq::<char>::empty());
        assert(escaped(s) =~= escaped_char(s[0]) + escaped(s.drop_first()));
    } else {
        lemma_escaped_front(s.drop_last());
        assert(s.drop_last().drop_first() =~= s.drop_first().drop_last());
        assert(escaped(s) =~= escaped_char(s[0]) + escaped(s.drop_first()));
    }
}

proof fn lemma_control_code(c: char)
    requires
        control(c),
    ensures
        ({
            let code = zero_padded(digits(c as nat, 16), 4);
            &&& code.len() == 4
            &&& code[2] == digit_char(c as int / 16)
            &&& code[3] == digit_char(c as int % 16)
        }),
{
    reveal_with_fuel(digits, 3);
    let d = digits(c as nat, 16);
    if (c as nat) < 16 {
        assert(d =~= seq![digit_char(c as int)]);
    } else {
        assert(d =~= seq![digit_char(c as int / 16), digit_char(c as int % 16)]);
    }
}

proof fn lemma_same_code(c: char, d: char, tail_c: Seq<char>, tail_d: Seq<char>)
    requires
        escaped_char(c) + tail_c == escaped_char(d) + tail_d,
    ensures
        c == d,
{
    let x = escaped_char(c) + tail_c;
    let y = escaped_char(d) + tail_d;
    lemma_escaped_char_is_one_line(c);
    lemma_escaped_char_is_one_line(d);
    assert(x[0] == escaped_char(c)[0]);
    assert(y[0] == escaped_char(d)[0]);
    if x[0] == '\\' {
        assert(x[1] == escaped_char(c)[1]);
        assert(y[1] == escaped_char(d)[1]);
        if x[1] == 'u' {
            lemma_control_code(c);
            lemma_control_code(d);
            assert(x[5] == escaped_char(c)[5]);
            assert(x[6] == escaped_char(c)[6]);
            assert(y[5] == escaped_char(d)[5]);
            assert(y[6] == escaped_char(d)[6]);
        }
    }
}

/// Escaping can be undone: two texts that render alike are the same.
pub proof fn escaping_is_injective(s: Seq<char>, t: Seq<char>)
    requires
        escaped(s) == escaped(t),
    ensures
        s == t,
    decreases s.len(),
{
    if s.len() == 0 {
        if t.len() > 0 {
            lemma_escaped_front(t);
            lemma_escaped_char_is_one_line(t[0]);
        }
        assert(s =~= t);
    } else if t.len() == 0 {
        lemma_escaped_front(s);
        lemma_escaped_char_is_one_line(s[0]);
    } else {
        lemma_escaped_front(s);
        lemma_escaped_front(t);
        lemma_same_code(s[0], t[0], escaped(s.drop_first()), escaped(t.drop_first()));
        let n = escaped_char(s[0]).len() as int;
        assert(escaped(s).skip(n) =~= escaped(s.drop_first()));
        assert(escaped(t).skip(n) =~= escaped(t.drop_first()));
        escaping_is_injective(s.drop_first(), t.drop_first());
        assert(s =~= seq![s[0]] + s.drop_first());
        assert(t =~= seq![t[0]] + t.drop_first());
    }
}

/// A text is escaped character by character: a backslash, a quote, a line break, a return and a
/// tab by a backslash and one more, any other control character by its code in braces, and every
/// other character stands for itself.
pub proof fn a_text_is_escaped_character_by_character(a: Seq<char>, b: Seq<char>, c: char)
    ensures
        escaped(a + b) == escaped(a) + escaped(b),
        escaped(Seq::empty()).len() == 0,
        c == '\\' ==> escaped(seq![c]) == seq!['\\', '\\'],
        c == '"' ==> escaped(seq![c]) == seq!['\\', '"'],
        c == '\n' ==> escaped(seq![c]) == seq!['\\', 'n'],
        c == '\r' ==> escaped(seq![c]) == seq!['\\', 'r'],
        c == '\t' ==> escaped(seq![c]) == seq!['\\', 't'],
        control(c) && c != '\n' && c != '\r' && c != '\t' ==> escaped(seq![c]) == seq![
            '\\',
            'u',
            '{',
        ] + zero_padded(digits(c as nat, 16), 4) + seq!['}'],
        !control(c) && c != '\\' && c != '"' ==> escaped(seq![c]) == seq![c],
    decreases b.len(),
{
    let one = seq![c];
    assert(one.drop_last() =~= Seq::<char>::empty());
    assert(one.last() == c);
    assert(escaped(Seq::<char>::empty()) =~= Seq::<char>::empty());
    assert(escaped(one) =~= escaped_char(c));
    if b.len() == 0 {
        assert(a + b =~= a);
        assert(escaped(a) + escaped(b) =~= escaped(a));
    } else {
        a_text_is_escaped_character_by_character(a, b.drop_last(), c);
        assert((a + b).drop_last() =~= a + b.drop_last());
        assert(escaped(a + b) =~= escaped(a) + escaped(b));
    }
}

/// The record of a device has its name and its UID, escaped, or says that they are not known.
pub proof fn a_device_is_recorded_by_name_and_uid(
    device: InputDevice,
    r: String,
    value: &str,
    safe: String,
)
    requires
        call_ensures(render_fields, (&device,), r),
        call_ensures(escape, (value,), safe),
    ensures
        safe@ == escaped(value@),
        ({
            let name = if device.name is Some {
                escaped(device.name->0@)
            } else {
                "unknown"@
            };
            let uid = if device.uid is Some {
                escaped(device.uid->0@)
            } else {
                "unknown"@
            };
            r@ == "device_name=\""@ + name + "\" device_uid=\""@ + uid + "\""@
        }),
{
}

} // verus!
