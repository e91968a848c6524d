//! The header codec: named drawing-wide variables, each one a name pair
//! (code 9) followed by its value pairs.
use vstd::prelude::*;

use crate::double::Double;
use crate::entity::{pair_views, pairs_wf};
use crate::entity_codec::{d_of, pd, psh, pt, s_of, t_of};
use crate::enums::{spec_version_from_string, spec_version_string, AcadVersion};
use crate::error::DxfError;
use crate::point::{spec_point_set, Point};
use crate::value::{CodePair, CodePairValue, PairV, ValueV};
use crate::writer::CodePairAsciiWriter;

verus! {

/// The drawing-wide settings this codec keeps: the revision (`$ACADVER`,
/// code 1), whether handles are written (`$HANDLING`, code 70), the
/// current layer (`$CLAYER`, code 8), the insertion base (`$INSBASE`,
/// codes 10/20/30), and the global line type scale (`$LTSCALE`, code
/// 40).
#[derive(Debug)]
pub struct Header {
    pub version: AcadVersion,
    pub handles_enabled: bool,
    pub current_layer: String,
    pub insertion_base: Point,
    pub line_type_scale: Double,
}

/// The mathematical shape of the header.
pub struct HeaderV {
    pub version: AcadVersion,
    pub handles_enabled: bool,
    pub current_layer: Seq<char>,
    pub insertion_base: Point,
    pub line_type_scale: Double,
}

impl View for Header {
    type V = HeaderV;

    open spec fn view(&self) -> HeaderV {
        HeaderV {
            version: self.version,
            handles_enabled: self.handles_enabled,
            current_layer: self.current_layer@,
            insertion_base: self.insertion_base,
            line_type_scale: self.line_type_scale,
        }
    }
}

/// The default header: revision R12, no handles, layer `0`, origin base,
/// unit scale.
pub open spec fn spec_default_header() -> HeaderV {
    HeaderV {
        version: AcadVersion::R12,
        handles_enabled: false,
        current_layer: "0"@,
        insertion_base: crate::point::spec_origin(),
        line_type_scale: Double { neg: false, units: 1, frac: 0 },
    }
}

/// The header is storable.
pub open spec fn header_wf(h: HeaderV) -> bool {
    vstd::utf8::is_ascii_chars(h.current_layer) && h.insertion_base.wf() && h.line_type_scale.wf()
}

/// How one value pair lands on the header under the variable last named:
/// an unknown variable or an unclaimed code is dropped, so newer files
/// still read.
pub open spec fn spec_set_header(h: HeaderV, name: Seq<char>, p: PairV) -> Result<
    HeaderV,
    DxfError,
> {
    if name == "$ACADVER"@ {
        match t_of(p.value) {
            Some(s) => match spec_version_from_string(s) {
                Some(v) => Ok(HeaderV { version: v, ..h }),
                None => Err(DxfError::UnexpectedEnumValue(1)),
            },
            None => Err(DxfError::InvalidValue(1)),
        }
    } else if name == "$HANDLING"@ {
        match s_of(p.value) {
            Some(v) => Ok(HeaderV { handles_enabled: v != 0, ..h }),
            None => Err(DxfError::InvalidValue(70)),
        }
    } else if name == "$CLAYER"@ {
        match t_of(p.value) {
            Some(s) => Ok(HeaderV { current_layer: s, ..h }),
            None => Err(DxfError::InvalidValue(8)),
        }
    } else if name == "$INSBASE"@ {
        match d_of(p.value) {
            Some(d) => Ok(
                HeaderV { insertion_base: spec_point_set(h.insertion_base, p.code, d), ..h },
            ),
            None => Err(DxfError::InvalidValue(p.code as i32)),
        }
    } else if name == "$LTSCALE"@ {
        match d_of(p.value) {
            Some(d) => Ok(HeaderV { line_type_scale: d, ..h }),
            None => Err(DxfError::InvalidValue(40)),
        }
    } else {
        Ok(h)
    }
}

/// Feeds value pairs to the variable last named, until the next name
/// pair, section-end pair, or the end of the run.
pub open spec fn spec_header_values(ps: Seq<PairV>, i: int, h: HeaderV, name: Seq<char>) -> Result<
    (HeaderV, int),
    DxfError,
>
    decreases ps.len() - i,
{
    if i < 0 || i >= ps.len() || ps[i].code == 0 || ps[i].code == 9 {
        Ok((h, i))
    } else {
        match spec_set_header(h, name, ps[i]) {
            Err(e) => Err(e),
            Ok(h2) => spec_header_values(ps, i + 1, h2, name),
        }
    }
}

pub proof fn lemma_header_values_bounds(ps: Seq<PairV>, i: int, h: HeaderV, name: Seq<char>)
    requires
        0 <= i <= ps.len(),
    ensures
        spec_header_values(ps, i, h, name) matches Ok((h2, j)) ==> i <= j <= ps.len(),
    decreases ps.len() - i,
{
    if !(i >= ps.len() || ps[i].code == 0 || ps[i].code == 9) {
        match spec_set_header(h, name, ps[i]) {
            Err(_) => {},
            Ok(h2) => {
                lemma_header_values_bounds(ps, i + 1, h2, name);
            },
        }
    }
}

/// Reads header variables: each name pair (code 9) opens a variable and
/// its value pairs follow; a zero-code pair ends the section and stays
/// put, as does the end of the run.
pub open spec fn spec_header_vars(ps: Seq<PairV>, i: int, h: HeaderV) -> Result<
    (HeaderV, int),
    DxfError,
>
    decreases ps.len() - i,
    via spec_header_vars_decreases
{
    if i < 0 || i >= ps.len() {
        Ok((h, if i < 0 {
            0
        } else {
            ps.len() as int
        }))
    } else if ps[i].code == 0 {
        Ok((h, i))
    } else if ps[i].code == 9 {
        match t_of(ps[i].value) {
            None => Err(DxfError::InvalidValue(9)),
            Some(name) => match spec_header_values(ps, i + 1, h, name) {
                Err(e) => Err(e),
                Ok((h2, j)) => spec_header_vars(ps, j, h2),
            },
        }
    } else {
        Err(DxfError::UnexpectedCodePair)
    }
}

#[via_fn]
proof fn spec_header_vars_decreases(ps: Seq<PairV>, i: int, h: HeaderV) {
    if 0 <= i < ps.len() && ps[i].code == 9 {
        match t_of(ps[i].value) {
            None => {},
            Some(name) => {
                lemma_header_values_bounds(ps, i + 1, h, name);
            },
        }
    }
}

pub proof fn lemma_header_vars_bounds(ps: Seq<PairV>, i: int, h: HeaderV)
    requires
        0 <= i <= ps.len(),
    ensures
        spec_header_vars(ps, i, h) matches Ok((h2, j)) ==> i <= j <= ps.len(),
    decreases ps.len() - i,
{
    if i < ps.len() && ps[i].code == 9 {
        match t_of(ps[i].value) {
            None => {},
            Some(name) => {
                lemma_header_values_bounds(ps, i + 1, h, name);
                match spec_header_values(ps, i + 1, h, name) {
                    Err(_) => {},
                    Ok((h2, j)) => {
                        lemma_header_vars_bounds(ps, j, h2);
                    },
                }
            },
        }
    }
}

/// The pairs of the whole header section on write.
pub open spec fn spec_header_pairs(h: HeaderV) -> Seq<PairV> {
    seq![
        pt(0, "SECTION"@),
        pt(2, "HEADER"@),
        pt(9, "$ACADVER"@),
        pt(1, spec_version_string(h.version)),
        pt(9, "$HANDLING"@),
        psh(70, if h.handles_enabled { 1int } else { 0int }),
        pt(9, "$CLAYER"@),
        pt(8, h.current_layer),
        pt(9, "$INSBASE"@),
        pd(10, h.insertion_base.x),
        pd(20, h.insertion_base.y),
        pd(30, h.insertion_base.z),
        pt(9, "$LTSCALE"@),
        pd(40, h.line_type_scale),
        pt(0, "ENDSEC"@),
    ]
}

impl Header {
    /// Creates the default header.
    pub fn new() -> (r: Header)
        ensures
            r@ == spec_default_header(),
            header_wf(r@),
    {
        let r = Header {
            version: AcadVersion::R12,
            handles_enabled: false,
            current_layer: "0".to_owned(),
            insertion_base: Point::origin(),
            line_type_scale: Double::from_units(1),
        };
        proof {
            reveal_strlit("0");
        }
        r
    }

    /// Applies one value pair under the variable last named.
    pub fn set_header_value(&mut self, name: &String, pair: &CodePair) -> (r: Result<
        (),
        DxfError,
    >)
        ensures
            match r {
                Ok(()) => spec_set_header(old(self)@, name@, pair@) == Ok::<HeaderV, DxfError>(
                    final(self)@,
                ),
                Err(e) => spec_set_header(old(self)@, name@, pair@) == Err::<HeaderV, DxfError>(e)
                    && final(self)@ == old(self)@,
            },
            header_wf(old(self)@) && pair.wf() ==> header_wf(final(self)@),
    {
        proof {
            reveal_strlit("$ACADVER");
            reveal_strlit("$HANDLING");
            reveal_strlit("$CLAYER");
            reveal_strlit("$INSBASE");
            reveal_strlit("$LTSCALE");
        }
        if crate::enums::str_eq(name.as_str(), "$ACADVER") {
            match crate::entity_codec::expect_string(pair) {
                Ok(s) => match AcadVersion::from_version_string(s.as_str()) {
                    Some(v) => {
                        self.version = v;
                        Ok(())
                    },
                    None => Err(DxfError::UnexpectedEnumValue(1)),
                },
                Err(_) => Err(DxfError::InvalidValue(1)),
            }
        } else if crate::enums::str_eq(name.as_str(), "$HANDLING") {
            match crate::entity_codec::expect_short(pair) {
                Ok(v) => {
                    self.handles_enabled = v != 0;
                    Ok(())
                },
                Err(_) => Err(DxfError::InvalidValue(70)),
            }
        } else if crate::enums::str_eq(name.as_str(), "$CLAYER") {
            match crate::entity_codec::expect_string(pair) {
                Ok(s) => {
                    self.current_layer = s;
                    Ok(())
                },
                Err(_) => Err(DxfError::InvalidValue(8)),
            }
        } else if crate::enums::str_eq(name.as_str(), "$INSBASE") {
            match crate::entity_codec::expect_double(pair) {
                Ok(d) => {
                    if pair.code == 10 {
                        self.insertion_base.x = d;
                    } else if pair.code == 20 {
                        self.insertion_base.y = d;
                    } else if pair.code == 30 {
                        self.insertion_base.z = d;
                    }
                    Ok(())
                },
                Err(e) => Err(e),
            }
        } else if crate::enums::str_eq(name.as_str(), "$LTSCALE") {
            match crate::entity_codec::expect_double(pair) {
                Ok(d) => {
                    self.line_type_scale = d;
                    Ok(())
                },
                Err(_) => Err(DxfError::InvalidValue(40)),
            }
        } else {
            Ok(())
        }
    }

    /// Reads the header section body: variables until the section-end
    /// pair, which stays put.
    pub fn read(pairs: &Vec<CodePair>, i: &mut usize) -> (r: Result<Header, DxfError>)
        requires
            pairs_wf(pairs@),
            *old(i) <= pairs@.len(),
        ensures
            match r {
                Ok(h) => spec_header_vars(pair_views(pairs@), *old(i) as int, spec_default_header())
                    == Ok::<(HeaderV, int), DxfError>((h@, *final(i) as int)) && *final(i)
                    <= pairs@.len() && header_wf(h@),
                Err(e) => spec_header_vars(
                    pair_views(pairs@),
                    *old(i) as int,
                    spec_default_header(),
                ) == Err::<(HeaderV, int), DxfError>(e),
            },
    {
        let ghost ps = pair_views(pairs@);
        let mut header: Header = Header::new();
        loop
            invariant
                pairs_wf(pairs@),
                ps == pair_views(pairs@),
                *i <= pairs@.len(),
                header_wf(header@),
                spec_header_vars(ps, *old(i) as int, spec_default_header()) == spec_header_vars(
                    ps,
                    *i as int,
                    header@,
                ),
            decreases pairs@.len() - *i,
        {
            if *i >= pairs.len() {
                return Ok(header);
            }
            let idx: usize = *i;
            proof {
                assert(ps[idx as int] == pairs@[idx as int]@);
                assert(pairs@[idx as int].wf());
            }
            if pairs[idx].code == 0 {
                return Ok(header);
            }
            if pairs[idx].code != 9 {
                return Err(DxfError::UnexpectedCodePair);
            }
            let name: String = match &pairs[idx].value {
                CodePairValue::Str(s) => s.clone(),
                _ => {
                    return Err(DxfError::InvalidValue(9));
                },
            };
            let mut j: usize = idx + 1;
            loop
                invariant
                    pairs_wf(pairs@),
                    ps == pair_views(pairs@),
                    idx + 1 <= j <= pairs@.len(),
                    header_wf(header@),
                    t_of(ps[idx as int].value) == Some(name@),
                    spec_header_vars(ps, *old(i) as int, spec_default_header()) == (
                    match spec_header_values(ps, j as int, header@, name@) {
                        Err(e) => Err::<(HeaderV, int), DxfError>(e),
                        Ok((h2, k)) => spec_header_vars(ps, k, h2),
                    }),
                ensures
                    idx + 1 <= j <= pairs@.len(),
                    header_wf(header@),
                    spec_header_vars(ps, *old(i) as int, spec_default_header())
                        == spec_header_vars(ps, j as int, header@),
                decreases pairs@.len() - j,
            {
                if j >= pairs.len() {
                    break ;
                }
                proof {
                    assert(ps[j as int] == pairs@[j as int]@);
                    assert(pairs@[j as int].wf());
                }
                if pairs[j].code == 0 || pairs[j].code == 9 {
                    break ;
                }
                match header.set_header_value(&name, &pairs[j]) {
                    Ok(()) => {},
                    Err(e) => {
                        return Err(e);
                    },
                }
                j = j + 1;
            }
            *i = j;
        }
    }

    /// Writes the whole header section.
    pub fn write(&self, writer: &mut CodePairAsciiWriter)
        requires
            header_wf(self@),
            old(writer).wf(),
        ensures
            final(writer).wf(),
            final(writer)@ == old(writer)@ + spec_header_pairs(self@),
    {
        let ghost w0 = old(writer)@;
        proof {
            reveal_strlit("SECTION");
            reveal_strlit("HEADER");
            reveal_strlit("ENDSEC");
            reveal_strlit("$ACADVER");
            reveal_strlit("$HANDLING");
            reveal_strlit("$CLAYER");
            reveal_strlit("$INSBASE");
            reveal_strlit("$LTSCALE");
        }
        writer.write_code_pair(&CodePair::new_str(0, "SECTION"));
        writer.write_code_pair(&CodePair::new_str(2, "HEADER"));
        writer.write_code_pair(&CodePair::new_str(9, "$ACADVER"));
        writer.write_code_pair(&CodePair::new_str(1, self.version.to_version_string()));
        writer.write_code_pair(&CodePair::new_str(9, "$HANDLING"));
        writer.write_code_pair(
            &CodePair::new_short(70, if self.handles_enabled {
                1
            } else {
                0
            }),
        );
        writer.write_code_pair(&CodePair::new_str(9, "$CLAYER"));
        writer.write_code_pair(&CodePair::new_string(8, &self.current_layer));
        writer.write_code_pair(&CodePair::new_str(9, "$INSBASE"));
        writer.write_code_pair(&CodePair::new_double(10, self.insertion_base.x));
        writer.write_code_pair(&CodePair::new_double(20, self.insertion_base.y));
        writer.write_code_pair(&CodePair::new_double(30, self.insertion_base.z));
        writer.write_code_pair(&CodePair::new_str(9, "$LTSCALE"));
        writer.write_code_pair(&CodePair::new_double(40, self.line_type_scale));
        writer.write_code_pair(&CodePair::new_str(0, "ENDSEC"));
        proof {
            assert(writer@ =~= w0 + spec_header_pairs(self@));
        }
    }
}

} // verus!
