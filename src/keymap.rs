//! The default layout of the sixteen-key pad on a keyboard.
use vstd::prelude::*;

verus! {

/// The pad key that a keyboard character stands for, if any.
pub open spec fn spec_key_of(c: char) -> Option<u8> {
    match c {
        '1' => Some(0x1u8),
        '2' => Some(0x2u8),
        '3' => Some(0x3u8),
        'q' => Some(0x4u8),
        'w' => Some(0x5u8),
        'e' => Some(0x6u8),
        'a' => Some(0x7u8),
        's' => Some(0x8u8),
        'd' => Some(0x9u8),
        'z' => Some(0xau8),
        'x' => Some(0x0u8),
        'c' => Some(0xbu8),
        '4' => Some(0xcu8),
        'v' => Some(0xfu8),
        _ => None,
    }
}

/// The pad key that `c` stands for, if any.
pub fn key_of(c: char) -> (r: Option<u8>)
    ensures
        r == spec_key_of(c),
        r matches Some(k) ==> k < 16,
{
    match c {
        '1' => Some(0x1),
        '2' => Some(0x2),
        '3' => Some(0x3),
        'q' => Some(0x4),
        'w' => Some(0x5),
        'e' => Some(0x6),
        'a' => Some(0x7),
        's' => Some(0x8),
        'd' => Some(0x9),
        'z' => Some(0xa),
        'x' => Some(0x0),
        'c' => Some(0xb),
        '4' => Some(0xc),
        'v' => Some(0xf),
        _ => None,
    }
}

/// The pad keys that the characters of `line` stand for, in order, with the
/// characters that stand for none left out.
pub open spec fn spec_keys_of(line: Seq<char>) -> Seq<u8>
    decreases line.len(),
{
    if line.len() == 0 {
        seq![]
    } else {
        let rest = spec_keys_of(line.drop_last());
        match spec_key_of(line.last()) {
            Some(k) => rest.push(k),
            None => rest,
        }
    }
}

/// The pad keys that the characters of `line` stand for.
pub fn keys_of(line: &Vec<char>) -> (r: Vec<u8>)
    ensures
        r@ == spec_keys_of(line@),
{
    let mut r: Vec<u8> = Vec::new();
    let mut i: usize = 0;
    while i < line.len()
        invariant
            i <= line@.len(),
            r@ == spec_keys_of(line@.subrange(0, i as int)),
        decreases line@.len() - i,
    {
        let ghost pre = line@.subrange(0, i as int);
        assert(line@.subrange(0, i + 1).drop_last() =~= pre);
        match key_of(line[i]) {
            Some(k) => r.push(k),
            None => {},
        }
        i = i + 1;
    }
    assert(line@.subrange(0, line@.len() as int) =~= line@);
    r
}

} // verus!
