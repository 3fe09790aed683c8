//! Name normalization: rewriting the hierarchical path of a symbol
//! (array and structure notation such as `.Motor[2].Speed`) into the
//! flat dotted name (`Motor.2.Speed`) that serves as the stable merge
//! key across regenerations.

use vstd::prelude::*;

verus! {

/// `s` with a single leading `.` removed, if one is present.
pub open spec fn strip_leading_dot(s: Seq<char>) -> Seq<char> {
    if s.len() > 0 && s[0] == '.' {
        s.skip(1)
    } else {
        s
    }
}

/// Flattens array/structure notation in one left-to-right scan:
/// each `].` pair becomes a single `.`, every other `]` is dropped,
/// and every `[` becomes a `.`; all other characters are kept.
pub open spec fn flatten_path(s: Seq<char>) -> Seq<char>
    decreases s.len(),
{
    if s.len() == 0 {
        Seq::empty()
    } else if s[0] == ']' {
        if s.len() >= 2 && s[1] == '.' {
            seq!['.'] + flatten_path(s.skip(2))
        } else {
            flatten_path(s.skip(1))
        }
    } else if s[0] == '[' {
        seq!['.'] + flatten_path(s.skip(1))
    } else {
        seq![s[0]] + flatten_path(s.skip(1))
    }
}

/// The merge-stable name derived from a raw symbol path.
pub open spec fn normalized_name(raw: Seq<char>) -> Seq<char> {
    flatten_path(strip_leading_dot(raw))
}

/// The description a fresh record is seeded with: the raw path without
/// its leading dot.
pub open spec fn description_seed(raw: Seq<char>) -> Seq<char> {
    strip_leading_dot(raw)
}

/// Compares two string slices character by character.
pub fn str_eq(a: &str, b: &str) -> (r: bool)
    ensures
        r == (a@ == b@),
{
    let alen = a.unicode_len();
    let blen = b.unicode_len();
    if alen != blen {
        return false;
    }
    let mut i: usize = 0;
    while i < alen
        invariant
            i <= alen,
            alen == a@.len(),
            alen == b@.len(),
            forall|j: int| 0 <= j < i ==> a@[j] == b@[j],
        decreases alen - i,
    {
        if a.get_char(i) != b.get_char(i) {
            return false;
        }
        i = i + 1;
    }
    proof {
        assert(a@ =~= b@);
    }
    true
}

/// Rewrites a raw symbol path into its merge-stable name and the
/// description seed, in that order.
pub fn normalize(raw: &str) -> (r: (String, String))
    ensures
        r.0@ == normalized_name(raw@),
        r.1@ == description_seed(raw@),
{
    let len = raw.unicode_len();
    let desc: &str = if len > 0 && raw.get_char(0) == '.' {
        let d = raw.substring_char(1, len);
        proof {
            assert(d@ =~= raw@.skip(1));
        }
        d
    } else {
        raw
    };
    let dlen = desc.unicode_len();
    let mut name = String::new();
    let mut i: usize = 0;
    proof {
        assert(desc@.skip(0) =~= desc@);
    }
    while i < dlen
        invariant
            i <= dlen,
            dlen == desc@.len(),
            flatten_path(desc@) == name@ + flatten_path(desc@.skip(i as int)),
        decreases dlen - i,
    {
        let c = desc.get_char(i);
        proof {
            reveal_strlit(".");
            assert(desc@.skip(i as int).len() == dlen - i);
            assert(desc@.skip(i as int)[0] == desc@[i as int]);
        }
        if c == ']' {
            let mut pair = false;
            if i + 1 < dlen {
                if desc.get_char(i + 1) == '.' {
                    pair = true;
                }
            }
            if pair {
                proof {
                    assert(desc@.skip(i as int)[1] == desc@[i as int + 1]);
                    assert(desc@.skip(i as int).skip(2) =~= desc@.skip(i as int + 2));
                    assert("."@ =~= seq!['.']);
                }
                name.append(".");
                i = i + 2;
            } else {
                proof {
                    if desc@.skip(i as int).len() >= 2 {
                        assert(desc@.skip(i as int)[1] == desc@[i as int + 1]);
                    }
                    assert(desc@.skip(i as int).skip(1) =~= desc@.skip(i as int + 1));
                }
                i = i + 1;
            }
        } else if c == '[' {
            proof {
                assert(desc@.skip(i as int).skip(1) =~= desc@.skip(i as int + 1));
                assert("."@ =~= seq!['.']);
            }
            name.append(".");
            i = i + 1;
        } else {
            let piece = desc.substring_char(i, i + 1);
            proof {
                assert(desc@.skip(i as int).skip(1) =~= desc@.skip(i as int + 1));
                assert(piece@ =~= seq![desc@[i as int]]);
            }
            name.append(piece);
            i = i + 1;
        }
    }
    proof {
        assert(desc@.skip(dlen as int) =~= Seq::<char>::empty());
        assert(name@ =~= flatten_path(desc@));
    }
    (name, String::from_str(desc))
}

} // verus!
