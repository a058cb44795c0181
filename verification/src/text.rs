//! The texts a script run produces by itself: decimal numbers, the default
//! commit, merge and tag messages, and the byte form of file paths.

use vstd::prelude::*;
use vstd::utf8::{encode_scalar, encode_utf8, has_width_1_encoding};

use crate::model::{label_names, Label};

verus! {

/// The character of a decimal digit.
pub open spec fn digit_char(d: int) -> char {
    seq!['0', '1', '2', '3', '4', '5', '6', '7', '8', '9'][d]
}

/// The decimal notation of a natural number, without leading zeros.
pub open spec fn decimal(n: nat) -> Seq<char>
    decreases n,
{
    if n < 10 {
        seq![digit_char(n as int)]
    } else {
        decimal(n / 10) + seq![digit_char((n % 10) as int)]
    }
}

fn digit_str(d: usize) -> (r: &'static str)
    requires
        d < 10,
    ensures
        r@ == seq![digit_char(d as int)],
{
    proof {
        reveal_strlit("0");
        reveal_strlit("1");
        reveal_strlit("2");
        reveal_strlit("3");
        reveal_strlit("4");
        reveal_strlit("5");
        reveal_strlit("6");
        reveal_strlit("7");
        reveal_strlit("8");
        reveal_strlit("9");
    }
    match d {
        0 => "0",
        1 => "1",
        2 => "2",
        3 => "3",
        4 => "4",
        5 => "5",
        6 => "6",
        7 => "7",
        8 => "8",
        _ => "9",
    }
}

/// The character of a hexadecimal digit, in lower case.
pub open spec fn hex_char(d: int) -> char {
    seq!['0', '1', '2', '3', '4', '5', '6', '7', '8', '9', 'a', 'b', 'c', 'd', 'e', 'f'][d]
}

/// Bytes written in lower-case hexadecimal, two digits each, high digit first.
pub open spec fn hex_lower(bytes: Seq<u8>) -> Seq<char>
    decreases bytes.len(),
{
    if bytes.len() == 0 {
        Seq::empty()
    } else {
        hex_lower(bytes.drop_last()) + seq![
            hex_char((bytes.last() / 16) as int),
            hex_char((bytes.last() % 16) as int),
        ]
    }
}

fn hex_str(d: u8) -> (r: &'static str)
    requires
        d < 16,
    ensures
        r@ == seq![hex_char(d as int)],
{
    proof {
        reveal_strlit("0");
        reveal_strlit("1");
        reveal_strlit("2");
        reveal_strlit("3");
        reveal_strlit("4");
        reveal_strlit("5");
        reveal_strlit("6");
        reveal_strlit("7");
        reveal_strlit("8");
        reveal_strlit("9");
        reveal_strlit("a");
        reveal_strlit("b");
        reveal_strlit("c");
        reveal_strlit("d");
        reveal_strlit("e");
        reveal_strlit("f");
    }
    match d {
        0 => "0",
        1 => "1",
        2 => "2",
        3 => "3",
        4 => "4",
        5 => "5",
        6 => "6",
        7 => "7",
        8 => "8",
        9 => "9",
        10 => "a",
        11 => "b",
        12 => "c",
        13 => "d",
        14 => "e",
        _ => "f",
    }
}

/// Writes bytes in lower-case hexadecimal.
pub fn hex_string(bytes: &[u8]) -> (r: String)
    ensures
        r@ == hex_lower(bytes@),
{
    let mut s = String::new();
    let mut i: usize = 0;
    while i < bytes.len()
        invariant
            i <= bytes.len(),
            s@ == hex_lower(bytes@.take(i as int)),
        decreases bytes.len() - i,
    {
        let b = bytes[i];
        s.append(hex_str(b / 16));
        s.append(hex_str(b % 16));
        proof {
            assert(bytes@.take(i + 1).drop_last() =~= bytes@.take(i as int));
            assert(bytes@.take(i + 1).last() == b);
        }
        i = i + 1;
    }
    proof {
        assert(bytes@.take(bytes@.len() as int) =~= bytes@);
    }
    s
}

/// Writes `n` in decimal.
pub fn decimal_string(n: usize) -> (r: String)
    ensures
        r@ == decimal(n as nat),
    decreases n,
{
    if n < 10 {
        digit_str(n).to_owned()
    } else {
        let mut s = decimal_string(n / 10);
        s.append(digit_str(n % 10));
        s
    }
}

/// The message of a commit that a tree command makes when it names none.
pub open spec fn commit_message(index: nat) -> Seq<char> {
    "Commit (command "@ + decimal(index) + ")"@
}

/// The message of a tag.
pub open spec fn tag_message(index: nat) -> Seq<char> {
    "Tag (command "@ + decimal(index) + ")"@
}

/// Names joined by single spaces.
pub open spec fn join_names(names: Seq<Seq<char>>) -> Seq<char>
    decreases names.len(),
{
    if names.len() == 0 {
        Seq::empty()
    } else if names.len() == 1 {
        names[0]
    } else {
        join_names(names.drop_last()) + seq![' '] + names.last()
    }
}

/// The message of a merge commit that a merge command makes when it names none.
pub open spec fn merge_message(base: Seq<Seq<char>>, index: nat) -> Seq<char> {
    "Merged "@ + join_names(base) + " (command "@ + decimal(index) + ")"@
}

/// The default message of the commit made by command `index`.
pub fn default_commit_message(index: usize) -> (r: String)
    ensures
        r@ == commit_message(index as nat),
{
    let mut s = "Commit (command ".to_owned();
    let d = decimal_string(index);
    s.append(d.as_str());
    s.append(")");
    s
}

/// The message of the tag made by command `index`.
pub fn default_tag_message(index: usize) -> (r: String)
    ensures
        r@ == tag_message(index as nat),
{
    let mut s = "Tag (command ".to_owned();
    let d = decimal_string(index);
    s.append(d.as_str());
    s.append(")");
    s
}

/// The names of `base`, joined by single spaces.
pub fn join_label_names(base: &Vec<Label>) -> (r: String)
    ensures
        r@ == join_names(label_names(base@)),
{
    let ghost names = label_names(base@);
    let mut s = String::new();
    let mut i: usize = 0;
    while i < base.len()
        invariant
            i <= base.len(),
            names == label_names(base@),
            s@ == join_names(names.take(i as int)),
        decreases base.len() - i,
    {
        if i > 0 {
            s.append(" ");
        }
        s.append(base[i].as_str());
        proof {
            reveal_strlit(" ");
            assert(names.take(i + 1).drop_last() =~= names.take(i as int));
            assert(names.take(i + 1)[0] == names[0]);
        }
        i = i + 1;
    }
    proof {
        assert(names.take(base.len() as int) =~= names);
    }
    s
}

/// The default message of the merge commit made by command `index`.
pub fn default_merge_message(base: &Vec<Label>, index: usize) -> (r: String)
    ensures
        r@ == merge_message(label_names(base@), index as nat),
{
    let mut s = "Merged ".to_owned();
    let names = join_label_names(base);
    s.append(names.as_str());
    s.append(" (command ");
    let d = decimal_string(index);
    s.append(d.as_str());
    s.append(")");
    s
}

/// A path's bytes as the repository stores them, on systems whose paths are
/// plain bytes: the bytes themselves, whatever they are.
pub fn path2bytes(p: &[u8]) -> (r: Vec<u8>)
    ensures
        r@ == p@,
{
    vstd::slice::slice_to_vec(p)
}

/// A byte with each backslash turned into a forward slash.
pub open spec fn forward_slash(b: u8) -> u8 {
    if b == 0x5c {
        0x2f
    } else {
        b
    }
}

/// A character with a backslash turned into a forward slash.
pub open spec fn forward_slash_char(c: char) -> char {
    if c == '\\' {
        '/'
    } else {
        c
    }
}

proof fn lemma_scalar_forward_slash(c: char)
    ensures
        encode_scalar(forward_slash_char(c) as u32) == encode_scalar(c as u32).map_values(
            |b: u8| forward_slash(b),
        ),
{
    let v = c as u32;
    let e = encode_scalar(v);
    if c == '\\' {
        assert(v == 0x5c);
        assert(forward_slash_char(c) as u32 == 0x2f);
        assert(has_width_1_encoding(0x5c));
        assert((0x5cu32 & 0x7f) as u8 == 0x5c) by (bit_vector);
        assert((0x2fu32 & 0x7f) as u8 == 0x2f) by (bit_vector);
        assert(encode_scalar(0x2f) =~= e.map_values(|b: u8| forward_slash(b)));
    } else {
        assert(v != 0x5c);
        if has_width_1_encoding(v) {
            assert((v & 0x7f) as u8 != 0x5c) by (bit_vector)
                requires
                    v <= 0x7f,
                    v != 0x5c,
            ;
        } else {
            assert((0xC0 | ((v >> 6) & 0x1F) as u8) != 0x5c) by (bit_vector);
            assert((0xE0 | ((v >> 12) & 0x0F) as u8) != 0x5c) by (bit_vector);
            assert((0xF0 | ((v >> 18) & 0x7) as u8) != 0x5c) by (bit_vector);
            assert((0x80 | (v & 0x3F) as u8) != 0x5c) by (bit_vector);
            assert((0x80 | ((v >> 6) & 0x3F) as u8) != 0x5c) by (bit_vector);
            assert((0x80 | ((v >> 12) & 0x3F) as u8) != 0x5c) by (bit_vector);
        }
        assert forall|i: int| 0 <= i < e.len() implies #[trigger] e[i] != 0x5c by {}
        assert(e.map_values(|b: u8| forward_slash(b)) =~= e);
    }
}

/// Turning backslashes into forward slashes before or after the UTF-8
/// encoding gives the same bytes: no byte of another character's encoding is
/// a backslash.
pub proof fn lemma_encode_forward_slash(s: Seq<char>)
    ensures
        encode_utf8(s.map_values(|c: char| forward_slash_char(c))) == encode_utf8(s).map_values(
            |b: u8| forward_slash(b),
        ),
    decreases s.len(),
{
    let m = s.map_values(|c: char| forward_slash_char(c));
    if s.len() > 0 {
        lemma_encode_forward_slash(s.drop_first());
        assert(m.drop_first() =~= s.drop_first().map_values(|c: char| forward_slash_char(c)));
        lemma_scalar_forward_slash(s[0]);
        let a = encode_scalar(s[0] as u32);
        let b = encode_utf8(s.drop_first());
        assert((a + b).map_values(|x: u8| forward_slash(x)) =~= a.map_values(|x: u8| forward_slash(x))
            + b.map_values(|x: u8| forward_slash(x)));
    } else {
        assert(m.len() == 0);
        assert(encode_utf8(s).map_values(|b: u8| forward_slash(b)) =~= Seq::<u8>::empty());
    }
}

/// A path's UTF-8 bytes with each backslash separator written as a forward
/// slash, as the repository wants on systems that separate with backslashes.
pub fn _path2bytes_utf8(p: &str) -> (r: Vec<u8>)
    ensures
        r@ == encode_utf8(p@).map_values(|b: u8| forward_slash(b)),
        r@ == encode_utf8(p@.map_values(|c: char| forward_slash_char(c))),
{
    proof {
        lemma_encode_forward_slash(p@);
    }
    let mut v = vstd::slice::slice_to_vec(p.as_bytes());
    let ghost orig = v@;
    let mut i: usize = 0;
    while i < v.len()
        invariant
            i <= v.len(),
            v.len() == orig.len(),
            orig == encode_utf8(p@),
            forall|j: int| 0 <= j < i ==> v@[j] == forward_slash(orig[j]),
            forall|j: int| i <= j < v.len() ==> v@[j] == orig[j],
        decreases v.len() - i,
    {
        if v[i] == 0x5c {
            v.set(i, 0x2f);
        }
        i = i + 1;
    }
    proof {
        assert(v@ =~= orig.map_values(|b: u8| forward_slash(b)));
    }
    v
}

} // verus!
