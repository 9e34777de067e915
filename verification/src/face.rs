//! The face decoder: corner tokens of the shape `pos[/tex[/norm]]`
//! become 0-based attribute-index triples, and the corner count selects
//! the face variant.

use vstd::prelude::*;
use crate::bytes::{spec_split, split_bytes, tok_views};
use crate::model::{Face, ObjLoadError, VertexIndices};
use crate::numbers::{parse_usize, spec_parse_usize};

verus! {

/// One slash-delimited corner field: `None` is a malformed field, and
/// `Some(None)` an absent one. A present field is a 1-based index,
/// returned 0-based; an index of zero has no 0-based form and is
/// malformed.
pub open spec fn spec_parse_field(f: Seq<u8>) -> Option<Option<usize>> {
    if f.len() == 0 {
        Some(None)
    } else {
        match spec_parse_usize(f) {
            Option::None => None,
            Option::Some(v) => if v == 0 {
                None
            } else {
                Some(Some((v - 1) as usize))
            },
        }
    }
}

fn parse_field(f: &Vec<u8>) -> (r: Option<Option<usize>>)
    ensures
        r == spec_parse_field(f@),
{
    if f.len() == 0 {
        return Some(None);
    }
    match parse_usize(f) {
        Option::None => None,
        Option::Some(v) => {
            if v == 0 {
                None
            } else {
                Some(Some(v - 1))
            }
        },
    }
}

/// A corner token parsed to its vertex key: at most three fields, the
/// first of which must name a position; an absent texture coordinate or
/// normal stays absent.
pub open spec fn spec_parse_corner(t: Seq<u8>) -> Option<VertexIndices> {
    let fs = spec_split(t, 47);
    if fs.len() > 3 {
        None
    } else {
        match spec_parse_field(fs[0]) {
            Option::None => None,
            Option::Some(Option::None) => None,
            Option::Some(Option::Some(p)) => {
                let tex = if fs.len() >= 2 {
                    spec_parse_field(fs[1])
                } else {
                    Some(None)
                };
                let nrm = if fs.len() >= 3 {
                    spec_parse_field(fs[2])
                } else {
                    Some(None)
                };
                match tex {
                    Option::None => None,
                    Option::Some(tc) => match nrm {
                        Option::None => None,
                        Option::Some(nc) => Some(
                            VertexIndices { position: p, texture_coord: tc, normal: nc },
                        ),
                    },
                }
            },
        }
    }
}

/// Parses one corner token.
pub fn parse_corner(t: &Vec<u8>) -> (r: Option<VertexIndices>)
    ensures
        r == spec_parse_corner(t@),
{
    let fields = split_bytes(t.as_slice(), 47);
    let ghost fs = spec_split(t@, 47);
    proof {
        assert(tok_views(fields@).len() == fields@.len());
    }
    if fields.len() > 3 {
        return None;
    }
    proof {
        assert(fs[0] == fields@[0]@);
    }
    let p = match parse_field(&fields[0]) {
        Option::None => {
            return None;
        },
        Option::Some(Option::None) => {
            return None;
        },
        Option::Some(Option::Some(p)) => p,
    };
    let tc = if fields.len() >= 2 {
        proof {
            assert(fs[1] == fields@[1]@);
        }
        match parse_field(&fields[1]) {
            Option::None => {
                return None;
            },
            Option::Some(tc) => tc,
        }
    } else {
        None
    };
    let nc = if fields.len() >= 3 {
        proof {
            assert(fs[2] == fields@[2]@);
        }
        match parse_field(&fields[2]) {
            Option::None => {
                return None;
            },
            Option::Some(nc) => nc,
        }
    } else {
        None
    };
    Some(VertexIndices { position: p, texture_coord: tc, normal: nc })
}

/// The corner tokens parsed in order; one malformed corner fails the
/// whole list.
pub open spec fn spec_parse_corners(ts: Seq<Seq<u8>>) -> Option<Seq<VertexIndices>>
    decreases ts.len(),
{
    if ts.len() == 0 {
        Some(seq![])
    } else {
        match spec_parse_corners(ts.drop_last()) {
            Option::None => None,
            Option::Some(cs) => match spec_parse_corner(ts.last()) {
                Option::None => None,
                Option::Some(c) => Some(cs.push(c)),
            },
        }
    }
}

/// One malformed corner anywhere fails the whole list.
proof fn lemma_corners_fail(ts: Seq<Seq<u8>>, i: int)
    requires
        0 <= i < ts.len(),
        spec_parse_corner(ts[i]) is None,
    ensures
        spec_parse_corners(ts) is None,
    decreases ts.len(),
{
    if i == ts.len() - 1 {
    } else {
        assert(ts.drop_last()[i] == ts[i]);
        lemma_corners_fail(ts.drop_last(), i);
    }
}

/// A face directive decoded from its corner tokens: every corner must
/// parse, and the corner count picks the variant; a count of zero or
/// above four is an error.
pub open spec fn spec_load_face(ts: Seq<Seq<u8>>) -> Result<Face, ObjLoadError> {
    match spec_parse_corners(ts) {
        Option::None => Err(ObjLoadError::InvalidFaceValue),
        Option::Some(cs) => {
            if cs.len() == 1 {
                Ok(Face::Point(cs[0]))
            } else if cs.len() == 2 {
                Ok(Face::Line(cs[0], cs[1]))
            } else if cs.len() == 3 {
                Ok(Face::Triangle(cs[0], cs[1], cs[2]))
            } else if cs.len() == 4 {
                Ok(Face::Quad(cs[0], cs[1], cs[2], cs[3]))
            } else {
                Err(ObjLoadError::InvalidFaceValue)
            }
        },
    }
}

/// Decodes a face directive's corner tokens.
pub fn load_face(raw_face: &[Vec<u8>]) -> (r: Result<Face, ObjLoadError>)
    ensures
        r == spec_load_face(tok_views(raw_face@)),
{
    let ghost ts = tok_views(raw_face@);
    let n: usize = raw_face.len();
    let mut cs: Vec<VertexIndices> = Vec::new();
    let mut i: usize = 0;
    proof {
        assert(ts.take(0) =~= Seq::<Seq<u8>>::empty());
    }
    while i < n
        invariant
            0 <= i <= n,
            n == raw_face@.len(),
            ts == tok_views(raw_face@),
            spec_parse_corners(ts.take(i as int)) == Some(cs@),
        decreases n - i,
    {
        proof {
            assert(ts[i as int] == raw_face@[i as int]@);
        }
        match parse_corner(&raw_face[i]) {
            Option::None => {
                proof {
                    lemma_corners_fail(ts, i as int);
                }
                return Err(ObjLoadError::InvalidFaceValue);
            },
            Option::Some(c) => {
                cs.push(c);
                proof {
                    assert(ts.take(i as int + 1).drop_last() =~= ts.take(i as int));
                    assert(ts.take(i as int + 1).last() == ts[i as int]);
                }
            },
        }
        i += 1;
    }
    proof {
        assert(ts.take(n as int) =~= ts);
    }
    if cs.len() == 1 {
        Ok(Face::Point(cs[0]))
    } else if cs.len() == 2 {
        Ok(Face::Line(cs[0], cs[1]))
    } else if cs.len() == 3 {
        Ok(Face::Triangle(cs[0], cs[1], cs[2]))
    } else if cs.len() == 4 {
        Ok(Face::Quad(cs[0], cs[1], cs[2], cs[3]))
    } else {
        Err(ObjLoadError::InvalidFaceValue)
    }
}

} // verus!
