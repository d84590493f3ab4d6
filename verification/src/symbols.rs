//! A consistency check on translations: strip every alphanumeric
//! character, whitespace and comma from source and translation, and
//! compare what remains; mismatching special symbols usually point at a
//! broken format string.

use vstd::prelude::*;
use crate::chars::append_chars;
use crate::chars::chars_eq;
use crate::chars::chars_to_string;
use crate::chars::is_alnum;
use crate::chars::is_alnum_char;
use crate::chars::is_space;
use crate::chars::is_space_char;
use crate::chars::push_str_chars;
use crate::chars::str_chars;
use crate::message::MessageModel;
use crate::message::PoMessage;

verus! {

/// Whether the symbol check keeps this character: everything but
/// alphanumerics, whitespace and commas.
pub open spec fn keeps_symbol(c: char) -> bool {
    !(is_alnum_char(c) || is_space_char(c) || c == ',')
}

/// The special symbols of a string, in order.
pub open spec fn spec_strip(s: Seq<char>) -> Seq<char>
    decreases s.len(),
{
    if s.len() == 0 {
        Seq::empty()
    } else {
        (if keeps_symbol(s[0]) {
            seq![s[0]]
        } else {
            Seq::<char>::empty()
        }) + spec_strip(s.skip(1))
    }
}

/// The warning block printed for one mismatch.
pub open spec fn spec_warning(a: Seq<char>, b: Seq<char>) -> Seq<char> {
    "# Warning: Incorrect symbols:\n# msgid:  "@ + a + "\n# msgstr: "@ + b + "\n"@
}

/// The first mismatching plural slot's warning, if any.
pub open spec fn spec_check_plural(idsyms: Seq<char>, items: Seq<Seq<char>>) -> Option<Seq<char>>
    decreases items.len(),
{
    if items.len() == 0 {
        Option::None
    } else if spec_strip(items[0]) != idsyms {
        Option::Some(spec_warning(idsyms, spec_strip(items[0])))
    } else {
        spec_check_plural(idsyms, items.skip(1))
    }
}

/// The warning for a record whose translation's special symbols differ
/// from its source's, if any. The header is never checked, and the
/// plural source (`msgid_plural`) is not compared, since slots need
/// not match it.
pub open spec fn spec_check_symbols(m: MessageModel) -> Option<Seq<char>> {
    match m {
        MessageModel::Header { .. } => Option::None,
        MessageModel::Regular { msgid, msgstr } => spec_check_regular(msgid, msgstr),
        MessageModel::RegularWithContext { msgid, msgstr, .. } => spec_check_regular(
            msgid,
            msgstr,
        ),
        MessageModel::Plural { msgid, msgstr, .. } => spec_check_plural(spec_strip(msgid), msgstr),
        MessageModel::PluralWithContext { msgid, msgstr, .. } => spec_check_plural(
            spec_strip(msgid),
            msgstr,
        ),
    }
}

pub open spec fn spec_check_regular(msgid: Seq<char>, msgstr: Seq<char>) -> Option<Seq<char>> {
    if spec_strip(msgid) != spec_strip(msgstr) {
        Option::Some(spec_warning(spec_strip(msgid), spec_strip(msgstr)))
    } else {
        Option::None
    }
}

/// The special symbols of a character buffer.
fn strip_chars(s: &Vec<char>) -> (r: Vec<char>)
    ensures
        r@ == spec_strip(s@),
{
    let n = s.len();
    let mut out: Vec<char> = Vec::new();
    proof {
        assert(s@.skip(0) =~= s@);
    }
    let mut i: usize = 0;
    while i < n
        invariant
            i <= n,
            n == s@.len(),
            out@ + spec_strip(s@.skip(i as int)) == spec_strip(s@),
        decreases n - i,
    {
        let c = s[i];
        proof {
            assert(s@.skip(i as int)[0] == c);
            assert(s@.skip(i as int).skip(1) =~= s@.skip(i + 1));
        }
        if !(is_alnum(c) || is_space(c) || c == ',') {
            out.push(c);
        }
        proof {
            assert(out@ + spec_strip(s@.skip(i + 1)) =~= spec_strip(s@));
        }
        i = i + 1;
    }
    proof {
        assert(s@.skip(n as int).len() == 0);
        assert(out@ =~= out@ + spec_strip(s@.skip(n as int)));
    }
    out
}

/// The special symbols of a string: everything but alphanumerics,
/// whitespace and commas, in order.
pub fn strip_non_symbols(s: &str) -> (r: String)
    ensures
        r@ == spec_strip(s@),
{
    let v = str_chars(s);
    let out = strip_chars(&v);
    chars_to_string(&out)
}

/// Builds the warning block for one mismatch.
fn warning(a: &Vec<char>, b: &Vec<char>) -> (r: String)
    ensures
        r@ == spec_warning(a@, b@),
{
    let mut out: Vec<char> = Vec::new();
    push_str_chars(&mut out, "# Warning: Incorrect symbols:\n# msgid:  ");
    append_chars(&mut out, a);
    push_str_chars(&mut out, "\n# msgstr: ");
    append_chars(&mut out, b);
    push_str_chars(&mut out, "\n");
    assert(out@ =~= spec_warning(a@, b@));
    chars_to_string(&out)
}

/// Compares the special symbols of a record's source and translation;
/// a mismatch yields the warning block for the first differing field.
pub fn check_symbols(message: &PoMessage) -> (r: Option<String>)
    ensures
        ({
            let sp = spec_check_symbols(message@);
            match r {
                Option::Some(w) => sp == Option::Some(w@),
                Option::None => sp is None,
            }
        }),
{
    match message {
        PoMessage::Header { .. } => Option::None,
        PoMessage::Regular { msgid, msgstr } => check_regular(msgid, msgstr),
        PoMessage::RegularWithContext { msgid, msgstr, .. } => check_regular(msgid, msgstr),
        PoMessage::Plural { msgid, msgstr, .. } => check_plural(msgid, msgstr),
        PoMessage::PluralWithContext { msgid, msgstr, .. } => check_plural(msgid, msgstr),
    }
}

fn check_regular(msgid: &String, msgstr: &String) -> (r: Option<String>)
    ensures
        ({
            let sp = spec_check_regular(msgid@, msgstr@);
            match r {
                Option::Some(w) => sp == Option::Some(w@),
                Option::None => sp is None,
            }
        }),
{
    let idv = str_chars(msgid.as_str());
    let strv = str_chars(msgstr.as_str());
    let a = strip_chars(&idv);
    let b = strip_chars(&strv);
    if !chars_eq(&a, &b) {
        Option::Some(warning(&a, &b))
    } else {
        Option::None
    }
}

#[verifier::loop_isolation(false)]
fn check_plural(msgid: &String, msgstr: &Vec<String>) -> (r: Option<String>)
    ensures
        ({
            let sp = spec_check_plural(spec_strip(msgid@), msgstr.deep_view());
            match r {
                Option::Some(w) => sp == Option::Some(w@),
                Option::None => sp is None,
            }
        }),
{
    let idv = str_chars(msgid.as_str());
    let a = strip_chars(&idv);
    let n = msgstr.len();
    let ghost dv = msgstr.deep_view();
    proof {
        assert(dv.skip(0) =~= dv);
    }
    let mut i: usize = 0;
    while i < n
        invariant
            i <= n,
            spec_check_plural(a@, dv.skip(i as int)) == spec_check_plural(a@, dv),
        decreases n - i,
    {
        proof {
            assert(dv.skip(i as int)[0] == dv[i as int]);
            assert(dv[i as int] == msgstr@[i as int]@);
            assert(dv.skip(i as int).skip(1) =~= dv.skip(i + 1));
        }
        let itemv = str_chars(msgstr[i].as_str());
        let b = strip_chars(&itemv);
        if !chars_eq(&a, &b) {
            return Option::Some(warning(&a, &b));
        }
        i = i + 1;
    }
    proof {
        assert(dv.skip(n as int).len() == 0);
    }
    Option::None
}

/// The warning text of a record, or the empty string where the check
/// passes.
pub fn validate_message(message: &PoMessage) -> (r: String)
    ensures
        ({
            let sp = spec_check_symbols(message@);
            match sp {
                Option::Some(w) => r@ == w,
                Option::None => r@ == Seq::<char>::empty(),
            }
        }),
{
    match check_symbols(message) {
        Option::None => String::new(),
        Option::Some(errors) => errors,
    }
}

} // verus!
