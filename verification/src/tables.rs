//! Symbol tables and their records: the layer table carries the fields
//! the codec reads and writes; the other tables carry named records.
use vstd::prelude::*;

use crate::color::{spec_writable_color, Color};
use crate::entity::{pair_views, pairs_wf, spec_skip_to_zero};
use crate::entity_codec::{d_of, psh, pt, s_of, t_of};
use crate::error::DxfError;
use crate::value::{CodePair, CodePairValue, PairV, ValueV};
use crate::writer::CodePairAsciiWriter;

verus! {

/// One layer entry.  Fields: the name (code 2), the color (code 62,
/// negated when the layer is off), the line type name (code 6), and the
/// layer flags (code 70).
#[derive(Debug)]
pub struct Layer {
    pub name: String,
    pub color: Color,
    pub line_type_name: String,
    pub is_layer_on: bool,
    pub flags: i16,
}

/// The mathematical shape of a layer entry.
pub struct LayerV {
    pub name: Seq<char>,
    pub color: Color,
    pub line_type_name: Seq<char>,
    pub is_layer_on: bool,
    pub flags: i16,
}

impl vstd::view::View for Layer {
    type V = LayerV;

    open spec fn view(&self) -> LayerV {
        LayerV {
            name: self.name@,
            color: self.color,
            line_type_name: self.line_type_name@,
            is_layer_on: self.is_layer_on,
            flags: self.flags,
        }
    }
}

/// The default layer: named `0`, white, continuous, on, no flags.
pub open spec fn spec_default_layer() -> LayerV {
    LayerV {
        name: "0"@,
        color: Color { raw_value: 7 },
        line_type_name: "CONTINUOUS"@,
        is_layer_on: true,
        flags: 0,
    }
}

/// The layer is storable: names ASCII, and its color has a writable
/// magnitude.
pub open spec fn layer_wf(l: LayerV) -> bool {
    vstd::utf8::is_ascii_chars(l.name) && vstd::utf8::is_ascii_chars(l.line_type_name)
        && l.color.raw_value != i16::MIN
}

impl Layer {
    /// Creates the default layer.
    pub fn new() -> (r: Layer)
        ensures
            r@ == spec_default_layer(),
            layer_wf(r@),
    {
        let r = Layer {
            name: "0".to_owned(),
            color: Color::from_index(7),
            line_type_name: "CONTINUOUS".to_owned(),
            is_layer_on: true,
            flags: 0,
        };
        proof {
            reveal_strlit("0");
            reveal_strlit("CONTINUOUS");
            assert(r.color == Color { raw_value: 7 });
        }
        r
    }

    /// Whether the layer is frozen; bit 1 of the layer flags.
    pub fn get_is_frozen(&self) -> (r: bool)
        ensures
            r == ((self.flags & 1) != 0),
    {
        self.flags & 1 != 0
    }

    /// Sets or clears bit 1 of the layer flags.
    pub fn set_is_frozen(&mut self, val: bool)
        ensures
            final(self).flags == if val {
                old(self).flags | 1
            } else {
                old(self).flags & !1
            },
            final(self)@.name == old(self)@.name,
            final(self)@.color == old(self)@.color,
            final(self)@.line_type_name == old(self)@.line_type_name,
            final(self)@.is_layer_on == old(self)@.is_layer_on,
    {
        if val {
            self.flags = self.flags | 1;
        } else {
            self.flags = self.flags & !1;
        }
    }

    /// Whether the layer is locked; bit 4 of the layer flags.
    pub fn get_is_locked(&self) -> (r: bool)
        ensures
            r == ((self.flags & 4) != 0),
    {
        self.flags & 4 != 0
    }

    /// Sets or clears bit 4 of the layer flags.
    pub fn set_is_locked(&mut self, val: bool)
        ensures
            final(self).flags == if val {
                old(self).flags | 4
            } else {
                old(self).flags & !4
            },
            final(self)@.name == old(self)@.name,
            final(self)@.color == old(self)@.color,
            final(self)@.line_type_name == old(self)@.line_type_name,
            final(self)@.is_layer_on == old(self)@.is_layer_on,
    {
        if val {
            self.flags = self.flags | 4;
        } else {
            self.flags = self.flags & !4;
        }
    }
}

impl Default for Layer {
    /// The default layer.
    fn default() -> (r: Layer)
        ensures
            r@ == spec_default_layer(),
            layer_wf(r@),
    {
        Layer::new()
    }
}

/// How one pair lands on a layer entry: a negative color turns the layer
/// off and carries the color's magnitude; an unclaimed code is dropped.
pub open spec fn spec_apply_layer(l: LayerV, p: PairV) -> Result<LayerV, DxfError> {
    if p.code == 2 {
        match t_of(p.value) {
            Some(s) => Ok(LayerV { name: s, ..l }),
            None => Err(DxfError::InvalidValue(2)),
        }
    } else if p.code == 6 {
        match t_of(p.value) {
            Some(s) => Ok(LayerV { line_type_name: s, ..l }),
            None => Err(DxfError::InvalidValue(6)),
        }
    } else if p.code == 62 {
        match s_of(p.value) {
            Some(v) => if v == i16::MIN {
                Err(DxfError::InvalidValue(62))
            } else if v < 0 {
                Ok(LayerV { color: Color { raw_value: (-v) as i16 }, is_layer_on: false, ..l })
            } else {
                Ok(LayerV { color: Color { raw_value: v as i16 }, is_layer_on: true, ..l })
            },
            None => Err(DxfError::InvalidValue(62)),
        }
    } else if p.code == 70 {
        match s_of(p.value) {
            Some(v) => Ok(LayerV { flags: v as i16, ..l }),
            None => Err(DxfError::InvalidValue(70)),
        }
    } else {
        Ok(l)
    }
}

/// Feeds pairs to one layer entry until the next zero-code pair; the end
/// of the run inside a record is an error.
pub open spec fn spec_layer_fields(ps: Seq<PairV>, i: int, l: LayerV) -> Result<
    (LayerV, int),
    DxfError,
>
    decreases ps.len() - i,
{
    if i < 0 || i >= ps.len() {
        Err(DxfError::UnexpectedEndOfInput)
    } else if ps[i].code == 0 {
        Ok((l, i))
    } else {
        match spec_apply_layer(l, ps[i]) {
            Err(e) => Err(e),
            Ok(l2) => spec_layer_fields(ps, i + 1, l2),
        }
    }
}

pub proof fn lemma_layer_fields_bounds(ps: Seq<PairV>, i: int, l: LayerV)
    requires
        0 <= i <= ps.len(),
    ensures
        spec_layer_fields(ps, i, l) matches Ok((l2, j)) ==> i <= j <= ps.len(),
    decreases ps.len() - i,
{
    if i < ps.len() && ps[i].code != 0 {
        match spec_apply_layer(l, ps[i]) {
            Err(_) => {},
            Ok(l2) => {
                lemma_layer_fields_bounds(ps, i + 1, l2);
            },
        }
    }
}

/// Reads the records of the layer table up to and through its table-end
/// pair.  A record of another name inside the table is consumed whole; a
/// pair between records that opens no record is dropped.
pub open spec fn spec_read_layers(ps: Seq<PairV>, i: int) -> Result<(Seq<LayerV>, int), DxfError>
    decreases ps.len() - i,
    via spec_read_layers_decreases
{
    if i < 0 || i >= ps.len() {
        Err(DxfError::UnexpectedEndOfInput)
    } else if ps[i].code == 0 {
        match t_of(ps[i].value) {
            None => Err(DxfError::UnexpectedCodePair),
            Some(n) => if n == "ENDTAB"@ {
                Ok((Seq::<LayerV>::empty(), i + 1))
            } else if n == "LAYER"@ {
                match spec_layer_fields(ps, i + 1, spec_default_layer()) {
                    Err(e) => Err(e),
                    Ok((l, j)) => match spec_read_layers(ps, j) {
                        Err(e) => Err(e),
                        Ok((rest, k)) => Ok((seq![l] + rest, k)),
                    },
                }
            } else {
                match spec_read_layers(ps, spec_skip_to_zero(ps, i + 1)) {
                    Err(e) => Err(e),
                    Ok((rest, k)) => Ok((rest, k)),
                }
            },
        }
    } else {
        spec_read_layers(ps, i + 1)
    }
}

#[via_fn]
proof fn spec_read_layers_decreases(ps: Seq<PairV>, i: int) {
    if 0 <= i < ps.len() && ps[i].code == 0 {
        match t_of(ps[i].value) {
            None => {},
            Some(n) => {
                if n == "LAYER"@ {
                    lemma_layer_fields_bounds(ps, i + 1, spec_default_layer());
                } else {
                    crate::entity::lemma_skip_to_zero(ps, i + 1);
                }
            },
        }
    }
}

pub proof fn lemma_read_layers_bounds(ps: Seq<PairV>, i: int)
    requires
        0 <= i <= ps.len(),
    ensures
        spec_read_layers(ps, i) matches Ok((ls, j)) ==> i < j <= ps.len(),
    decreases ps.len() - i,
{
    if 0 <= i < ps.len() {
        if ps[i].code == 0 {
            match t_of(ps[i].value) {
                None => {},
                Some(n) => {
                    if n == "ENDTAB"@ {
                    } else if n == "LAYER"@ {
                        lemma_layer_fields_bounds(ps, i + 1, spec_default_layer());
                        match spec_layer_fields(ps, i + 1, spec_default_layer()) {
                            Err(_) => {},
                            Ok((l, j)) => {
                                lemma_read_layers_bounds(ps, j);
                            },
                        }
                    } else {
                        crate::entity::lemma_skip_to_zero(ps, i + 1);
                        lemma_read_layers_bounds(ps, spec_skip_to_zero(ps, i + 1));
                    }
                },
            }
        } else {
            lemma_read_layers_bounds(ps, i + 1);
        }
    }
}

/// Reads the layer table body.
pub fn read_layers(pairs: &Vec<CodePair>, i: &mut usize) -> (r: Result<Vec<Layer>, DxfError>)
    requires
        pairs_wf(pairs@),
        *old(i) <= pairs@.len(),
    ensures
        match r {
            Ok(ls) => spec_read_layers(pair_views(pairs@), *old(i) as int) == Ok::<
                (Seq<LayerV>, int),
                DxfError,
            >((ls@.map_values(|x: Layer| x@), *final(i) as int)) && *final(i) <= pairs@.len() && (
            forall|k: int| 0 <= k < ls@.len() ==> layer_wf(#[trigger] ls@[k]@)),
            Err(e) => spec_read_layers(pair_views(pairs@), *old(i) as int) == Err::<
                (Seq<LayerV>, int),
                DxfError,
            >(e),
        },
{
    let ghost ps = pair_views(pairs@);
    let mut out: Vec<Layer> = Vec::new();
    proof {
        assert(out@.map_values(|x: Layer| x@) =~= Seq::<LayerV>::empty());
    }
    loop
        invariant
            pairs_wf(pairs@),
            ps == pair_views(pairs@),
            *i <= pairs@.len(),
            forall|k: int| 0 <= k < out@.len() ==> layer_wf(#[trigger] out@[k]@),
            spec_read_layers(ps, *old(i) as int) == (match spec_read_layers(ps, *i as int) {
                Err(e) => Err::<(Seq<LayerV>, int), DxfError>(e),
                Ok((rest, k)) => Ok::<(Seq<LayerV>, int), DxfError>(
                    (out@.map_values(|x: Layer| x@) + rest, k),
                ),
            }),
        decreases pairs@.len() - *i,
    {
        if *i >= pairs.len() {
            return Err(DxfError::UnexpectedEndOfInput);
        }
        let idx: usize = *i;
        proof {
            assert(ps[idx as int] == pairs@[idx as int]@);
            assert(pairs@[idx as int].wf());
        }
        if pairs[idx].code != 0 {
            *i = idx + 1;
            continue ;
        }
        let name: String = match &pairs[idx].value {
            CodePairValue::Str(s) => s.clone(),
            _ => {
                return Err(DxfError::UnexpectedCodePair);
            },
        };
        proof {
            reveal_strlit("ENDTAB");
            reveal_strlit("LAYER");
        }
        if crate::enums::str_eq(name.as_str(), "ENDTAB") {
            *i = idx + 1;
            proof {
                assert(out@.map_values(|x: Layer| x@) + Seq::<LayerV>::empty() =~= out@.map_values(
                    |x: Layer| x@,
                ));
            }
            return Ok(out);
        }
        if crate::enums::str_eq(name.as_str(), "LAYER") {
            let mut layer: Layer = Layer::new();
            let mut j: usize = idx + 1;
            loop
                invariant
                    pairs_wf(pairs@),
                    ps == pair_views(pairs@),
                    idx + 1 <= j <= pairs@.len(),
                    layer_wf(layer@),
                    forall|k: int| 0 <= k < out@.len() ==> layer_wf(#[trigger] out@[k]@),
                    spec_read_layers(ps, *old(i) as int) == (match spec_layer_fields(
                        ps,
                        j as int,
                        layer@,
                    ) {
                        Err(e) => Err::<(Seq<LayerV>, int), DxfError>(e),
                        Ok((l, j2)) => match spec_read_layers(ps, j2) {
                            Err(e2) => Err::<(Seq<LayerV>, int), DxfError>(e2),
                            Ok((rest, k2)) => Ok::<(Seq<LayerV>, int), DxfError>(
                                (out@.map_values(|x: Layer| x@) + (seq![l] + rest), k2),
                            ),
                        },
                    }),
                ensures
                    idx + 1 <= j <= pairs@.len(),
                    layer_wf(layer@),
                    forall|k: int| 0 <= k < out@.len() ==> layer_wf(#[trigger] out@[k]@),
                    spec_read_layers(ps, *old(i) as int) == (match spec_read_layers(
                        ps,
                        j as int,
                    ) {
                        Err(e2) => Err::<(Seq<LayerV>, int), DxfError>(e2),
                        Ok((rest, k2)) => Ok::<(Seq<LayerV>, int), DxfError>(
                            (out@.map_values(|x: Layer| x@) + (seq![layer@] + rest), k2),
                        ),
                    }),
                decreases pairs@.len() - j,
            {
                if j >= pairs.len() {
                    return Err(DxfError::UnexpectedEndOfInput);
                }
                proof {
                    assert(ps[j as int] == pairs@[j as int]@);
                    assert(pairs@[j as int].wf());
                }
                if pairs[j].code == 0 {
                    break ;
                }
                match apply_layer_pair(&mut layer, &pairs[j]) {
                    Ok(()) => {},
                    Err(e) => {
                        return Err(e);
                    },
                }
                j = j + 1;
            }
            let ghost prev = out@;
            let ghost lv = layer@;
            out.push(layer);
            proof {
                assert(out@.map_values(|x: Layer| x@) =~= prev.map_values(|x: Layer| x@).push(
                    lv,
                ));
                match spec_read_layers(ps, j as int) {
                    Err(_) => {},
                    Ok((rest, k2)) => {
                        assert(prev.map_values(|x: Layer| x@) + (seq![lv] + rest)
                            =~= out@.map_values(|x: Layer| x@) + rest);
                    },
                }
            }
            *i = j;
            continue ;
        }
        let j2: usize = crate::entity::skip_to_zero_at(pairs, idx + 1);
        *i = j2;
    }
}

/// Applies one pair to a layer entry.
fn apply_layer_pair(layer: &mut Layer, pair: &CodePair) -> (r: Result<(), DxfError>)
    ensures
        match r {
            Ok(()) => spec_apply_layer(old(layer)@, pair@) == Ok::<LayerV, DxfError>(
                final(layer)@,
            ),
            Err(e) => spec_apply_layer(old(layer)@, pair@) == Err::<LayerV, DxfError>(e)
                && final(layer)@ == old(layer)@,
        },
        layer_wf(old(layer)@) && pair.wf() ==> layer_wf(final(layer)@),
{
    if pair.code == 2 {
        match crate::entity_codec::expect_string(pair) {
            Ok(s) => {
                layer.name = s;
                Ok(())
            },
            Err(_) => Err(DxfError::InvalidValue(2)),
        }
    } else if pair.code == 6 {
        match crate::entity_codec::expect_string(pair) {
            Ok(s) => {
                layer.line_type_name = s;
                Ok(())
            },
            Err(_) => Err(DxfError::InvalidValue(6)),
        }
    } else if pair.code == 62 {
        match crate::entity_codec::expect_short(pair) {
            Ok(v) => if v == i16::MIN {
                Err(DxfError::InvalidValue(62))
            } else if v < 0 {
                layer.color = Color::from_raw_value(-v);
                layer.is_layer_on = false;
                Ok(())
            } else {
                layer.color = Color::from_raw_value(v);
                layer.is_layer_on = true;
                Ok(())
            },
            Err(_) => Err(DxfError::InvalidValue(62)),
        }
    } else if pair.code == 70 {
        match crate::entity_codec::expect_short(pair) {
            Ok(v) => {
                layer.flags = v;
                Ok(())
            },
            Err(_) => Err(DxfError::InvalidValue(70)),
        }
    } else {
        Ok(())
    }
}

/// Feeds pairs to one named record until the next zero-code pair: only
/// the name code is claimed.
pub open spec fn spec_named_fields(ps: Seq<PairV>, i: int, name: Seq<char>) -> Result<
    (Seq<char>, int),
    DxfError,
>
    decreases ps.len() - i,
{
    if i < 0 || i >= ps.len() {
        Err(DxfError::UnexpectedEndOfInput)
    } else if ps[i].code == 0 {
        Ok((name, i))
    } else if ps[i].code == 2 {
        match t_of(ps[i].value) {
            Some(s) => spec_named_fields(ps, i + 1, s),
            None => Err(DxfError::InvalidValue(2)),
        }
    } else {
        spec_named_fields(ps, i + 1, name)
    }
}

pub proof fn lemma_named_fields_bounds(ps: Seq<PairV>, i: int, name: Seq<char>)
    requires
        0 <= i <= ps.len(),
    ensures
        spec_named_fields(ps, i, name) matches Ok((n2, j)) ==> i <= j <= ps.len(),
    decreases ps.len() - i,
{
    if i < ps.len() && ps[i].code != 0 {
        if ps[i].code == 2 {
            match t_of(ps[i].value) {
                Some(s) => {
                    lemma_named_fields_bounds(ps, i + 1, s);
                },
                None => {},
            }
        } else {
            lemma_named_fields_bounds(ps, i + 1, name);
        }
    }
}

/// Reads the records of a named table up to and through its table-end
/// pair, keeping the record names; the record type string picks which
/// zero-code pairs open records.
pub open spec fn spec_read_named(ps: Seq<PairV>, i: int, ts: Seq<char>) -> Result<
    (Seq<Seq<char>>, int),
    DxfError,
>
    decreases ps.len() - i,
    via spec_read_named_decreases
{
    if i < 0 || i >= ps.len() {
        Err(DxfError::UnexpectedEndOfInput)
    } else if ps[i].code == 0 {
        match t_of(ps[i].value) {
            None => Err(DxfError::UnexpectedCodePair),
            Some(n) => if n == "ENDTAB"@ {
                Ok((Seq::<Seq<char>>::empty(), i + 1))
            } else if n == ts {
                match spec_named_fields(ps, i + 1, "0"@) {
                    Err(e) => Err(e),
                    Ok((nm, j)) => match spec_read_named(ps, j, ts) {
                        Err(e) => Err(e),
                        Ok((rest, k)) => Ok((seq![nm] + rest, k)),
                    },
                }
            } else {
                spec_read_named(ps, spec_skip_to_zero(ps, i + 1), ts)
            },
        }
    } else {
        spec_read_named(ps, i + 1, ts)
    }
}

#[via_fn]
proof fn spec_read_named_decreases(ps: Seq<PairV>, i: int, ts: Seq<char>) {
    if 0 <= i < ps.len() && ps[i].code == 0 {
        match t_of(ps[i].value) {
            None => {},
            Some(n) => {
                if n == "ENDTAB"@ {
                } else if n == ts {
                    lemma_named_fields_bounds(ps, i + 1, "0"@);
                } else {
                    crate::entity::lemma_skip_to_zero(ps, i + 1);
                }
            },
        }
    }
}

/// Reads a named table body, keeping the record names in order.
pub fn read_named_records(pairs: &Vec<CodePair>, i: &mut usize, ts: &str) -> (r: Result<
    Vec<String>,
    DxfError,
>)
    requires
        pairs_wf(pairs@),
        *old(i) <= pairs@.len(),
    ensures
        match r {
            Ok(names) => spec_read_named(pair_views(pairs@), *old(i) as int, ts@) == Ok::<
                (Seq<Seq<char>>, int),
                DxfError,
            >((names@.map_values(|x: String| x@), *final(i) as int)) && *final(i) <= pairs@.len()
                && (forall|k: int|
                0 <= k < names@.len() ==> vstd::utf8::is_ascii_chars(#[trigger] names@[k]@)),
            Err(e) => spec_read_named(pair_views(pairs@), *old(i) as int, ts@) == Err::<
                (Seq<Seq<char>>, int),
                DxfError,
            >(e),
        },
{
    let ghost ps = pair_views(pairs@);
    let mut out: Vec<String> = Vec::new();
    proof {
        assert(out@.map_values(|x: String| x@) =~= Seq::<Seq<char>>::empty());
    }
    loop
        invariant
            pairs_wf(pairs@),
            ps == pair_views(pairs@),
            *i <= pairs@.len(),
            forall|k: int|
                0 <= k < out@.len() ==> vstd::utf8::is_ascii_chars(#[trigger] out@[k]@),
            spec_read_named(ps, *old(i) as int, ts@) == (match spec_read_named(
                ps,
                *i as int,
                ts@,
            ) {
                Err(e) => Err::<(Seq<Seq<char>>, int), DxfError>(e),
                Ok((rest, k)) => Ok::<(Seq<Seq<char>>, int), DxfError>(
                    (out@.map_values(|x: String| x@) + rest, k),
                ),
            }),
        decreases pairs@.len() - *i,
    {
        if *i >= pairs.len() {
            return Err(DxfError::UnexpectedEndOfInput);
        }
        let idx: usize = *i;
        proof {
            assert(ps[idx as int] == pairs@[idx as int]@);
            assert(pairs@[idx as int].wf());
        }
        if pairs[idx].code != 0 {
            *i = idx + 1;
            continue ;
        }
        let name: String = match &pairs[idx].value {
            CodePairValue::Str(s) => s.clone(),
            _ => {
                return Err(DxfError::UnexpectedCodePair);
            },
        };
        proof {
            reveal_strlit("ENDTAB");
            reveal_strlit("0");
        }
        if crate::enums::str_eq(name.as_str(), "ENDTAB") {
            *i = idx + 1;
            proof {
                assert(out@.map_values(|x: String| x@) + Seq::<Seq<char>>::empty()
                    =~= out@.map_values(|x: String| x@));
            }
            return Ok(out);
        }
        if crate::enums::str_eq(name.as_str(), ts) {
            let mut record_name: String = "0".to_owned();
            let mut j: usize = idx + 1;
            loop
                invariant
                    pairs_wf(pairs@),
                    ps == pair_views(pairs@),
                    idx + 1 <= j <= pairs@.len(),
                    vstd::utf8::is_ascii_chars(record_name@),
                    forall|k: int|
                        0 <= k < out@.len() ==> vstd::utf8::is_ascii_chars(#[trigger] out@[k]@),
                    spec_read_named(ps, *old(i) as int, ts@) == (match spec_named_fields(
                        ps,
                        j as int,
                        record_name@,
                    ) {
                        Err(e) => Err::<(Seq<Seq<char>>, int), DxfError>(e),
                        Ok((nm, j2)) => match spec_read_named(ps, j2, ts@) {
                            Err(e2) => Err::<(Seq<Seq<char>>, int), DxfError>(e2),
                            Ok((rest, k2)) => Ok::<(Seq<Seq<char>>, int), DxfError>(
                                (out@.map_values(|x: String| x@) + (seq![nm] + rest), k2),
                            ),
                        },
                    }),
                ensures
                    idx + 1 <= j <= pairs@.len(),
                    vstd::utf8::is_ascii_chars(record_name@),
                    forall|k: int|
                        0 <= k < out@.len() ==> vstd::utf8::is_ascii_chars(#[trigger] out@[k]@),
                    spec_read_named(ps, *old(i) as int, ts@) == (match spec_read_named(
                        ps,
                        j as int,
                        ts@,
                    ) {
                        Err(e2) => Err::<(Seq<Seq<char>>, int), DxfError>(e2),
                        Ok((rest, k2)) => Ok::<(Seq<Seq<char>>, int), DxfError>(
                            (out@.map_values(|x: String| x@) + (seq![record_name@] + rest), k2),
                        ),
                    }),
                decreases pairs@.len() - j,
            {
                if j >= pairs.len() {
                    return Err(DxfError::UnexpectedEndOfInput);
                }
                proof {
                    assert(ps[j as int] == pairs@[j as int]@);
                    assert(pairs@[j as int].wf());
                }
                if pairs[j].code == 0 {
                    break ;
                }
                if pairs[j].code == 2 {
                    match &pairs[j].value {
                        CodePairValue::Str(s) => {
                            record_name = s.clone();
                        },
                        _ => {
                            return Err(DxfError::InvalidValue(2));
                        },
                    }
                }
                j = j + 1;
            }
            let ghost prev = out@;
            let ghost nv = record_name@;
            out.push(record_name);
            proof {
                assert(out@.map_values(|x: String| x@) =~= prev.map_values(|x: String| x@).push(
                    nv,
                ));
                match spec_read_named(ps, j as int, ts@) {
                    Err(_) => {},
                    Ok((rest, k2)) => {
                        assert(prev.map_values(|x: String| x@) + (seq![nv] + rest)
                            =~= out@.map_values(|x: String| x@) + rest);
                    },
                }
            }
            *i = j;
            continue ;
        }
        let j2: usize = crate::entity::skip_to_zero_at(pairs, idx + 1);
        *i = j2;
    }
}

/// Walks past an unrecognized table: everything until the next pair that
/// opens a table, ends one, or ends the section, which stays put.
pub open spec fn spec_swallow_table(ps: Seq<PairV>, i: int) -> Result<int, DxfError>
    decreases ps.len() - i,
{
    if i < 0 || i >= ps.len() {
        Err(DxfError::UnexpectedEndOfInput)
    } else if ps[i].code == 0 && (t_of(ps[i].value) matches Some(n) && (n == "TABLE"@ || n
        == "ENDSEC"@ || n == "ENDTAB"@)) {
        Ok(i)
    } else {
        spec_swallow_table(ps, i + 1)
    }
}

pub proof fn lemma_swallow_table_bounds(ps: Seq<PairV>, i: int)
    requires
        0 <= i <= ps.len(),
    ensures
        spec_swallow_table(ps, i) matches Ok(j) ==> i <= j < ps.len(),
    decreases ps.len() - i,
{
    if i < ps.len() {
        if !(ps[i].code == 0 && (t_of(ps[i].value) matches Some(n) && (n == "TABLE"@ || n
            == "ENDSEC"@ || n == "ENDTAB"@))) {
            lemma_swallow_table_bounds(ps, i + 1);
        }
    }
}

/// Walks past an unrecognized table.
pub fn swallow_table(pairs: &Vec<CodePair>, i: &mut usize) -> (r: Result<(), DxfError>)
    requires
        pairs_wf(pairs@),
        *old(i) <= pairs@.len(),
    ensures
        match r {
            Ok(()) => spec_swallow_table(pair_views(pairs@), *old(i) as int) == Ok::<
                int,
                DxfError,
            >(*final(i) as int) && *final(i) <= pairs@.len(),
            Err(e) => spec_swallow_table(pair_views(pairs@), *old(i) as int) == Err::<
                int,
                DxfError,
            >(e),
        },
{
    let ghost ps = pair_views(pairs@);
    loop
        invariant
            pairs_wf(pairs@),
            ps == pair_views(pairs@),
            *i <= pairs@.len(),
            spec_swallow_table(ps, *old(i) as int) == spec_swallow_table(ps, *i as int),
        decreases pairs@.len() - *i,
    {
        if *i >= pairs.len() {
            return Err(DxfError::UnexpectedEndOfInput);
        }
        let idx: usize = *i;
        proof {
            assert(ps[idx as int] == pairs@[idx as int]@);
            assert(pairs@[idx as int].wf());
            reveal_strlit("TABLE");
            reveal_strlit("ENDSEC");
            reveal_strlit("ENDTAB");
        }
        if pairs[idx].code == 0 {
            match &pairs[idx].value {
                CodePairValue::Str(s) => {
                    if crate::enums::str_eq(s.as_str(), "TABLE") || crate::enums::str_eq(
                        s.as_str(),
                        "ENDSEC",
                    ) || crate::enums::str_eq(s.as_str(), "ENDTAB") {
                        return Ok(());
                    }
                },
                _ => {},
            }
        }
        *i = idx + 1;
    }
}

/// One application id entry: a named symbol-table record whose name rides on code 2.
#[derive(Debug)]
pub struct AppId {
    pub name: String,
}

impl vstd::view::View for AppId {
    type V = Seq<char>;

    open spec fn view(&self) -> Seq<char> {
        self.name@
    }
}

impl AppId {
    /// Creates the default record.
    pub fn new() -> (r: AppId)
        ensures
            r@ == "0"@,
    {
        let r = AppId { name: "0".to_owned() };
        proof {
            reveal_strlit("0");
        }
        r
    }
}

impl Default for AppId {
    /// The default record.
    fn default() -> (r: AppId)
        ensures
            r@ == "0"@,
    {
        AppId::new()
    }
}

/// Builds an application id entry list out of the names read for it.
pub fn appids_from_names(names: Vec<String>) -> (r: Vec<AppId>)
    ensures
        r@.len() == names@.len(),
        forall|i: int| 0 <= i < names@.len() ==> (#[trigger] r@[i])@ == names@[i]@,
{
    let mut out: Vec<AppId> = Vec::new();
    let mut k: usize = 0;
    while k < names.len()
        invariant
            0 <= k <= names@.len(),
            out@.len() == k,
            forall|i: int| 0 <= i < k ==> (#[trigger] out@[i])@ == names@[i]@,
        decreases names@.len() - k,
    {
        let name: String = names[k].clone();
        let ghost nv = name@;
        out.push(AppId { name });
        proof {
            assert(nv == names@[k as int]@);
            assert((out@[k as int])@ == nv);
        }
        k = k + 1;
    }
    out
}

/// One block record entry: a named symbol-table record whose name rides on code 2.
#[derive(Debug)]
pub struct BlockRecord {
    pub name: String,
}

impl vstd::view::View for BlockRecord {
    type V = Seq<char>;

    open spec fn view(&self) -> Seq<char> {
        self.name@
    }
}

impl BlockRecord {
    /// Creates the default record.
    pub fn new() -> (r: BlockRecord)
        ensures
            r@ == "0"@,
    {
        let r = BlockRecord { name: "0".to_owned() };
        proof {
            reveal_strlit("0");
        }
        r
    }
}

impl Default for BlockRecord {
    /// The default record.
    fn default() -> (r: BlockRecord)
        ensures
            r@ == "0"@,
    {
        BlockRecord::new()
    }
}

/// Builds a block record entry list out of the names read for it.
pub fn blockrecords_from_names(names: Vec<String>) -> (r: Vec<BlockRecord>)
    ensures
        r@.len() == names@.len(),
        forall|i: int| 0 <= i < names@.len() ==> (#[trigger] r@[i])@ == names@[i]@,
{
    let mut out: Vec<BlockRecord> = Vec::new();
    let mut k: usize = 0;
    while k < names.len()
        invariant
            0 <= k <= names@.len(),
            out@.len() == k,
            forall|i: int| 0 <= i < k ==> (#[trigger] out@[i])@ == names@[i]@,
        decreases names@.len() - k,
    {
        let name: String = names[k].clone();
        let ghost nv = name@;
        out.push(BlockRecord { name });
        proof {
            assert(nv == names@[k as int]@);
            assert((out@[k as int])@ == nv);
        }
        k = k + 1;
    }
    out
}

/// One dimension style entry: a named symbol-table record whose name rides on code 2.
#[derive(Debug)]
pub struct DimStyle {
    pub name: String,
}

impl vstd::view::View for DimStyle {
    type V = Seq<char>;

    open spec fn view(&self) -> Seq<char> {
        self.name@
    }
}

impl DimStyle {
    /// Creates the default record.
    pub fn new() -> (r: DimStyle)
        ensures
            r@ == "0"@,
    {
        let r = DimStyle { name: "0".to_owned() };
        proof {
            reveal_strlit("0");
        }
        r
    }
}

impl Default for DimStyle {
    /// The default record.
    fn default() -> (r: DimStyle)
        ensures
            r@ == "0"@,
    {
        DimStyle::new()
    }
}

/// Builds a dimension style entry list out of the names read for it.
pub fn dimstyles_from_names(names: Vec<String>) -> (r: Vec<DimStyle>)
    ensures
        r@.len() == names@.len(),
        forall|i: int| 0 <= i < names@.len() ==> (#[trigger] r@[i])@ == names@[i]@,
{
    let mut out: Vec<DimStyle> = Vec::new();
    let mut k: usize = 0;
    while k < names.len()
        invariant
            0 <= k <= names@.len(),
            out@.len() == k,
            forall|i: int| 0 <= i < k ==> (#[trigger] out@[i])@ == names@[i]@,
        decreases names@.len() - k,
    {
        let name: String = names[k].clone();
        let ghost nv = name@;
        out.push(DimStyle { name });
        proof {
            assert(nv == names@[k as int]@);
            assert((out@[k as int])@ == nv);
        }
        k = k + 1;
    }
    out
}

/// One line type entry: a named symbol-table record whose name rides on code 2.
#[derive(Debug)]
pub struct LineType {
    pub name: String,
}

impl vstd::view::View for LineType {
    type V = Seq<char>;

    open spec fn view(&self) -> Seq<char> {
        self.name@
    }
}

impl LineType {
    /// Creates the default record.
    pub fn new() -> (r: LineType)
        ensures
            r@ == "0"@,
    {
        let r = LineType { name: "0".to_owned() };
        proof {
            reveal_strlit("0");
        }
        r
    }
}

impl Default for LineType {
    /// The default record.
    fn default() -> (r: LineType)
        ensures
            r@ == "0"@,
    {
        LineType::new()
    }
}

/// Builds a line type entry list out of the names read for it.
pub fn linetypes_from_names(names: Vec<String>) -> (r: Vec<LineType>)
    ensures
        r@.len() == names@.len(),
        forall|i: int| 0 <= i < names@.len() ==> (#[trigger] r@[i])@ == names@[i]@,
{
    let mut out: Vec<LineType> = Vec::new();
    let mut k: usize = 0;
    while k < names.len()
        invariant
            0 <= k <= names@.len(),
            out@.len() == k,
            forall|i: int| 0 <= i < k ==> (#[trigger] out@[i])@ == names@[i]@,
        decreases names@.len() - k,
    {
        let name: String = names[k].clone();
        let ghost nv = name@;
        out.push(LineType { name });
        proof {
            assert(nv == names@[k as int]@);
            assert((out@[k as int])@ == nv);
        }
        k = k + 1;
    }
    out
}

/// One text style entry: a named symbol-table record whose name rides on code 2.
#[derive(Debug)]
pub struct Style {
    pub name: String,
}

impl vstd::view::View for Style {
    type V = Seq<char>;

    open spec fn view(&self) -> Seq<char> {
        self.name@
    }
}

impl Style {
    /// Creates the default record.
    pub fn new() -> (r: Style)
        ensures
            r@ == "0"@,
    {
        let r = Style { name: "0".to_owned() };
        proof {
            reveal_strlit("0");
        }
        r
    }
}

impl Default for Style {
    /// The default record.
    fn default() -> (r: Style)
        ensures
            r@ == "0"@,
    {
        Style::new()
    }
}

/// Builds a text style entry list out of the names read for it.
pub fn styles_from_names(names: Vec<String>) -> (r: Vec<Style>)
    ensures
        r@.len() == names@.len(),
        forall|i: int| 0 <= i < names@.len() ==> (#[trigger] r@[i])@ == names@[i]@,
{
    let mut out: Vec<Style> = Vec::new();
    let mut k: usize = 0;
    while k < names.len()
        invariant
            0 <= k <= names@.len(),
            out@.len() == k,
            forall|i: int| 0 <= i < k ==> (#[trigger] out@[i])@ == names@[i]@,
        decreases names@.len() - k,
    {
        let name: String = names[k].clone();
        let ghost nv = name@;
        out.push(Style { name });
        proof {
            assert(nv == names@[k as int]@);
            assert((out@[k as int])@ == nv);
        }
        k = k + 1;
    }
    out
}

/// One user coordinate system entry: a named symbol-table record whose name rides on code 2.
#[derive(Debug)]
pub struct Ucs {
    pub name: String,
}

impl vstd::view::View for Ucs {
    type V = Seq<char>;

    open spec fn view(&self) -> Seq<char> {
        self.name@
    }
}

impl Ucs {
    /// Creates the default record.
    pub fn new() -> (r: Ucs)
        ensures
            r@ == "0"@,
    {
        let r = Ucs { name: "0".to_owned() };
        proof {
            reveal_strlit("0");
        }
        r
    }
}

impl Default for Ucs {
    /// The default record.
    fn default() -> (r: Ucs)
        ensures
            r@ == "0"@,
    {
        Ucs::new()
    }
}

/// Builds a user coordinate system entry list out of the names read for it.
pub fn ucss_from_names(names: Vec<String>) -> (r: Vec<Ucs>)
    ensures
        r@.len() == names@.len(),
        forall|i: int| 0 <= i < names@.len() ==> (#[trigger] r@[i])@ == names@[i]@,
{
    let mut out: Vec<Ucs> = Vec::new();
    let mut k: usize = 0;
    while k < names.len()
        invariant
            0 <= k <= names@.len(),
            out@.len() == k,
            forall|i: int| 0 <= i < k ==> (#[trigger] out@[i])@ == names@[i]@,
        decreases names@.len() - k,
    {
        let name: String = names[k].clone();
        let ghost nv = name@;
        out.push(Ucs { name });
        proof {
            assert(nv == names@[k as int]@);
            assert((out@[k as int])@ == nv);
        }
        k = k + 1;
    }
    out
}

/// One view entry: a named symbol-table record whose name rides on code 2.
#[derive(Debug)]
pub struct ViewRecord {
    pub name: String,
}

impl vstd::view::View for ViewRecord {
    type V = Seq<char>;

    open spec fn view(&self) -> Seq<char> {
        self.name@
    }
}

impl ViewRecord {
    /// Creates the default record.
    pub fn new() -> (r: ViewRecord)
        ensures
            r@ == "0"@,
    {
        let r = ViewRecord { name: "0".to_owned() };
        proof {
            reveal_strlit("0");
        }
        r
    }
}

impl Default for ViewRecord {
    /// The default record.
    fn default() -> (r: ViewRecord)
        ensures
            r@ == "0"@,
    {
        ViewRecord::new()
    }
}

/// Builds the view list out of the names read for it.
pub fn views_from_names(names: Vec<String>) -> (r: Vec<ViewRecord>)
    ensures
        r@.len() == names@.len(),
        forall|i: int| 0 <= i < names@.len() ==> (#[trigger] r@[i])@ == names@[i]@,
{
    let mut out: Vec<ViewRecord> = Vec::new();
    let mut k: usize = 0;
    while k < names.len()
        invariant
            0 <= k <= names@.len(),
            out@.len() == k,
            forall|i: int| 0 <= i < k ==> (#[trigger] out@[i])@ == names@[i]@,
        decreases names@.len() - k,
    {
        let name: String = names[k].clone();
        let ghost nv = name@;
        out.push(ViewRecord { name });
        proof {
            assert(nv == names@[k as int]@);
            assert((out@[k as int])@ == nv);
        }
        k = k + 1;
    }
    out
}

/// One view port entry: a named symbol-table record whose name rides on code 2.
#[derive(Debug)]
pub struct ViewPort {
    pub name: String,
}

impl vstd::view::View for ViewPort {
    type V = Seq<char>;

    open spec fn view(&self) -> Seq<char> {
        self.name@
    }
}

impl ViewPort {
    /// Creates the default record.
    pub fn new() -> (r: ViewPort)
        ensures
            r@ == "0"@,
    {
        let r = ViewPort { name: "0".to_owned() };
        proof {
            reveal_strlit("0");
        }
        r
    }
}

impl Default for ViewPort {
    /// The default record.
    fn default() -> (r: ViewPort)
        ensures
            r@ == "0"@,
    {
        ViewPort::new()
    }
}

/// Builds a view port entry list out of the names read for it.
pub fn viewports_from_names(names: Vec<String>) -> (r: Vec<ViewPort>)
    ensures
        r@.len() == names@.len(),
        forall|i: int| 0 <= i < names@.len() ==> (#[trigger] r@[i])@ == names@[i]@,
{
    let mut out: Vec<ViewPort> = Vec::new();
    let mut k: usize = 0;
    while k < names.len()
        invariant
            0 <= k <= names@.len(),
            out@.len() == k,
            forall|i: int| 0 <= i < k ==> (#[trigger] out@[i])@ == names@[i]@,
        decreases names@.len() - k,
    {
        let name: String = names[k].clone();
        let ghost nv = name@;
        out.push(ViewPort { name });
        proof {
            assert(nv == names@[k as int]@);
            assert((out@[k as int])@ == nv);
        }
        k = k + 1;
    }
    out
}

} // verus!
