//! Placements: the configuration texts that pair a pattern file's path with
//! the grid offset at which to stamp it, written `path,x,y`. The engine only
//! parses the text; opening the named file is the caller's business.

use crate::text::{
    dec_value, is_usize_text, lemma_seg_len_is, parse_usize, split_on, FIELD_SEPARATOR,
};
use crate::Error;
use vstd::prelude::*;

verus! {

/// A pattern source paired with the offset at which it is to be stamped.
#[derive(Clone, Debug, PartialEq)]
pub struct Placement {
    /// The pattern file's path, as the caller wrote it. Kept as plain bytes:
    /// the engine itself never touches the filesystem.
    pub filename: Vec<u8>,
    /// How far right of the grid's left edge the pattern's first column goes.
    pub x_offset: usize,
    /// How far below the grid's top edge the pattern's first row goes.
    pub y_offset: usize,
}

/// The exact condition under which a placement text parses: at least three
/// comma-separated fields, the second and the third denoting `usize` values.
/// Fields past the third are ignored.
pub open spec fn valid_placement_text(s: Seq<u8>) -> bool {
    let fields = split_on(s, FIELD_SEPARATOR);
    fields.len() >= 3 && is_usize_text(fields[1]) && is_usize_text(fields[2])
}

/// Index of the first `d` at or after `from` in `s`, or the length of `s`
/// when no such byte exists.
fn find_byte(s: &[u8], from: usize, d: u8) -> (idx: usize)
    requires
        from <= s@.len(),
    ensures
        from <= idx <= s@.len(),
        forall|m: int| from as int <= m < idx as int ==> s@[m] != d,
        idx < s@.len() ==> s@[idx as int] == d,
{
    let n = s.len();
    let mut i: usize = from;
    #[verifier::loop_isolation(false)]
    while i < n && s[i] != d
        invariant
            from <= i <= n,
            forall|m: int| from as int <= m < i as int ==> s@[m] != d,
        decreases n - i,
    {
        i = i + 1;
    }
    i
}

impl Placement {
    /// Parse a placement text `path,x,y`: everything before the first comma
    /// is the file path (it may be empty — judging paths is left to the
    /// caller), the next two fields are the decimal x and y offsets, and any
    /// further fields are ignored. A missing or non-numeric offset field is a
    /// `ParseError`.
    #[verifier::loop_isolation(false)]
    pub fn from_text(s: &[u8]) -> (r: Result<Placement, Error>)
        ensures
            r is Ok <==> valid_placement_text(s@),
            r matches Ok(p) ==> {
                let fields = split_on(s@, FIELD_SEPARATOR);
                &&& p.filename@ == fields[0]
                &&& p.x_offset as int == dec_value(fields[1])
                &&& p.y_offset as int == dec_value(fields[2])
            },
            r is Err ==> r == Err::<Placement, Error>(Error::ParseError),
    {
        let n = s.len();
        let ghost fields = split_on(s@, FIELD_SEPARATOR);
        let c1 = find_byte(s, 0, FIELD_SEPARATOR);
        proof {
            lemma_seg_len_is(s@, FIELD_SEPARATOR, c1 as int);
        }
        if c1 == n {
            proof {
                assert(fields.len() <= 1);
            }
            return Err(Error::ParseError);
        }
        let ghost t1 = s@.skip(c1 as int + 1);
        proof {
            assert(fields == seq![s@.take(c1 as int)] + split_on(t1, FIELD_SEPARATOR));
        }
        let c2 = find_byte(s, c1 + 1, FIELD_SEPARATOR);
        proof {
            assert forall|m: int| 0 <= m < c2 as int - (c1 as int + 1) implies t1[m]
                != FIELD_SEPARATOR by {
                assert(t1[m] == s@[c1 as int + 1 + m]);
            }
            lemma_seg_len_is(t1, FIELD_SEPARATOR, c2 as int - (c1 as int + 1));
        }
        if c2 == n {
            proof {
                assert(split_on(t1, FIELD_SEPARATOR).len() <= 1);
                assert(fields.len() <= 2);
            }
            return Err(Error::ParseError);
        }
        let ghost t2 = s@.skip(c2 as int + 1);
        proof {
            assert(t1.skip(c2 as int - c1 as int) =~= t2);
            assert(split_on(t1, FIELD_SEPARATOR) == seq![t1.take(c2 as int - (c1 as int + 1))]
                + split_on(t2, FIELD_SEPARATOR));
            assert(fields[1] =~= s@.subrange(c1 as int + 1, c2 as int));
        }
        let c3 = find_byte(s, c2 + 1, FIELD_SEPARATOR);
        proof {
            assert forall|m: int| 0 <= m < c3 as int - (c2 as int + 1) implies t2[m]
                != FIELD_SEPARATOR by {
                assert(t2[m] == s@[c2 as int + 1 + m]);
            }
            lemma_seg_len_is(t2, FIELD_SEPARATOR, c3 as int - (c2 as int + 1));
            if t2.len() == 0 {
                assert(fields.len() == 2);
            } else {
                if c3 as int - (c2 as int + 1) < t2.len() {
                    assert(split_on(t2, FIELD_SEPARATOR) == seq![
                        t2.take(c3 as int - (c2 as int + 1)),
                    ] + split_on(t2.skip(c3 as int - c2 as int), FIELD_SEPARATOR));
                } else {
                    assert(split_on(t2, FIELD_SEPARATOR) == seq![t2]);
                }
                assert(fields.len() >= 3);
                assert(fields[2] =~= s@.subrange(c2 as int + 1, c3 as int));
            }
        }
        let x_offset = match parse_usize(s, c1 + 1, c2) {
            Ok(v) => v,
            Err(_) => {
                proof {
                    assert(!is_usize_text(fields[1]));
                }
                return Err(Error::ParseError);
            },
        };
        let y_offset = match parse_usize(s, c2 + 1, c3) {
            Ok(v) => v,
            Err(_) => {
                proof {
                    if t2.len() == 0 {
                        assert(!valid_placement_text(s@));
                    } else {
                        assert(!is_usize_text(fields[2]));
                    }
                }
                return Err(Error::ParseError);
            },
        };
        proof {
            assert(t2.len() > 0);
            assert(is_usize_text(fields[2]));
        }
        let mut filename: Vec<u8> = Vec::new();
        let mut i: usize = 0;
        while i < c1
            invariant
                i <= c1,
                filename@.len() == i as int,
                forall|m: int| 0 <= m < i as int ==> filename@[m] == s@[m],
            decreases c1 - i,
        {
            filename.push(s[i]);
            i = i + 1;
        }
        proof {
            assert(filename@ =~= s@.take(c1 as int));
            assert(fields[0] == s@.take(c1 as int));
        }
        Ok(Placement { filename, x_offset, y_offset })
    }
}

} // verus!
