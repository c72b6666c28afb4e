//! The material-library parser and the merged material table. The format is
//! line-based, MTL-like: `newmtl` opens a material, `map_Ka` / `map_Kd` /
//! `map_Ks` name its ambient / diffuse / specular texture files. Colour and
//! scalar directives are not interpreted: nothing in the loading logic reads
//! them. Libraries referenced by a mesh are merged in reference order into
//! one table whose lookup resolves a name to its **last** definition, so a
//! later library overrides an earlier one on a name collision.

use vstd::prelude::*;

verus! {

use crate::text::{bytes_eq, copy_bytes, lemma_bytes_deep_view, lines_of, split_lines, split_tokens, tokens_of};

/// One material definition: a name and its optional texture-file names for
/// the ambient, diffuse and specular channels.
pub struct MaterialDef {
    pub name: Vec<u8>,
    pub map_ka: Option<Vec<u8>>,
    pub map_kd: Option<Vec<u8>>,
    pub map_ks: Option<Vec<u8>>,
}

#[verifier::ext_equal]
pub struct MaterialDefView {
    pub name: Seq<u8>,
    pub map_ka: Option<Seq<u8>>,
    pub map_kd: Option<Seq<u8>>,
    pub map_ks: Option<Seq<u8>>,
}

pub open spec fn opt_bytes_view(o: Option<Vec<u8>>) -> Option<Seq<u8>> {
    match o {
        Some(v) => Some(v@),
        None => None,
    }
}

impl View for MaterialDef {
    type V = MaterialDefView;

    open spec fn view(&self) -> MaterialDefView {
        MaterialDefView {
            name: self.name@,
            map_ka: opt_bytes_view(self.map_ka),
            map_kd: opt_bytes_view(self.map_kd),
            map_ks: opt_bytes_view(self.map_ks),
        }
    }
}

/// The views of a definition list.
pub open spec fn defs_view(s: Seq<MaterialDef>) -> Seq<MaterialDefView> {
    Seq::new(s.len(), |i: int| s[i]@)
}

pub open spec fn kw_newmtl() -> Seq<u8> {
    seq![110u8, 101u8, 119u8, 109u8, 116u8, 108u8]
}

pub open spec fn kw_map_ka() -> Seq<u8> {
    seq![109u8, 97u8, 112u8, 95u8, 75u8, 97u8]
}

pub open spec fn kw_map_kd() -> Seq<u8> {
    seq![109u8, 97u8, 112u8, 95u8, 75u8, 100u8]
}

pub open spec fn kw_map_ks() -> Seq<u8> {
    seq![109u8, 97u8, 112u8, 95u8, 75u8, 115u8]
}

/// Sets one texture channel (0 ambient, 1 diffuse, 2 specular) of the open
/// material; a channel directive before any `newmtl`, or without a file
/// name, is a format error.
pub open spec fn set_channel(st: Seq<MaterialDefView>, toks: Seq<Seq<u8>>, ch: int) -> Option<
    Seq<MaterialDefView>,
> {
    if toks.len() >= 2 && st.len() > 0 {
        let m = st.last();
        let m2 = if ch == 0 {
            MaterialDefView { map_ka: Some(toks[1]), ..m }
        } else if ch == 1 {
            MaterialDefView { map_kd: Some(toks[1]), ..m }
        } else {
            MaterialDefView { map_ks: Some(toks[1]), ..m }
        };
        Some(st.update(st.len() - 1, m2))
    } else {
        None
    }
}

/// One line of a material library. Unknown keywords, comments and blank
/// lines are skipped.
pub open spec fn mtl_step(st: Seq<MaterialDefView>, line: Seq<u8>) -> Option<
    Seq<MaterialDefView>,
> {
    let toks = split_tokens(line);
    if toks.len() == 0 {
        Some(st)
    } else if toks[0] == kw_newmtl() {
        if toks.len() >= 2 {
            Some(
                st.push(
                    MaterialDefView { name: toks[1], map_ka: None, map_kd: None, map_ks: None },
                ),
            )
        } else {
            None
        }
    } else if toks[0] == kw_map_ka() {
        set_channel(st, toks, 0)
    } else if toks[0] == kw_map_kd() {
        set_channel(st, toks, 1)
    } else if toks[0] == kw_map_ks() {
        set_channel(st, toks, 2)
    } else {
        Some(st)
    }
}

/// The definition list after the given lines, starting from `st`.
pub open spec fn mtl_fold(lines: Seq<Seq<u8>>, st: Seq<MaterialDefView>) -> Option<
    Seq<MaterialDefView>,
>
    decreases lines.len(),
{
    if lines.len() == 0 {
        Some(st)
    } else {
        match mtl_step(st, lines[0]) {
            None => None,
            Some(st2) => mtl_fold(lines.drop_first(), st2),
        }
    }
}

/// What a material library means: its definitions in file order, or a
/// format error.
pub open spec fn parse_mtl_spec(data: Seq<u8>) -> Option<Seq<MaterialDefView>> {
    mtl_fold(split_lines(data), seq![])
}

/// Runs one line through the parser, exactly as `mtl_step` describes.
fn mtl_step_exec(st: Vec<MaterialDef>, line: &Vec<u8>) -> (r: Option<Vec<MaterialDef>>)
    ensures
        match r {
            Some(st2) => mtl_step(defs_view(st@), line@) == Some(defs_view(st2@)),
            None => mtl_step(defs_view(st@), line@) is None,
        },
{
    broadcast use lemma_bytes_deep_view;

    let ghost st0 = defs_view(st@);
    let toks = tokens_of(line);
    let ghost tv = split_tokens(line@);
    proof {
        assert(toks.deep_view() == tv);
        assert(tv.len() == toks@.len());
        assert(forall|i: int| 0 <= i < toks@.len() ==> toks@[i]@ == #[trigger] tv[i]);
    }
    if toks.len() == 0 {
        return Some(st);
    }
    let t0 = &toks[0];
    let is_newmtl = t0.len() == 6 && t0[0] == 110 && t0[1] == 101 && t0[2] == 119 && t0[3] == 109
        && t0[4] == 116 && t0[5] == 108;
    let is_map = t0.len() == 6 && t0[0] == 109 && t0[1] == 97 && t0[2] == 112 && t0[3] == 95
        && t0[4] == 75;
    if is_newmtl {
        proof {
            assert(t0@ =~= kw_newmtl());
        }
        if toks.len() >= 2 {
            let mut st = st;
            st.push(
                MaterialDef {
                    name: copy_bytes(&toks[1]),
                    map_ka: None,
                    map_kd: None,
                    map_ks: None,
                },
            );
            proof {
                assert(defs_view(st@) =~~= st0.push(
                    MaterialDefView { name: tv[1], map_ka: None, map_kd: None, map_ks: None },
                ));
            }
            Some(st)
        } else {
            None
        }
    } else if is_map && (t0[5] == 97 || t0[5] == 100 || t0[5] == 115) {
        let ch: u8 = if t0[5] == 97 {
            0
        } else if t0[5] == 100 {
            1
        } else {
            2
        };
        proof {
            if t0@[5] == 97 {
                assert(t0@ =~= kw_map_ka());
            } else if t0@[5] == 100 {
                assert(t0@ =~= kw_map_kd());
            } else {
                assert(t0@ =~= kw_map_ks());
            }
        }
        if toks.len() >= 2 && st.len() > 0 {
            let mut st = st;
            let n = st.len();
            let mut m = st.remove(n - 1);
            if ch == 0 {
                m.map_ka = Some(copy_bytes(&toks[1]));
            } else if ch == 1 {
                m.map_kd = Some(copy_bytes(&toks[1]));
            } else {
                m.map_ks = Some(copy_bytes(&toks[1]));
            }
            st.push(m);
            proof {
                assert(defs_view(st@) =~~= set_channel(st0, tv, ch as int).unwrap());
            }
            Some(st)
        } else {
            None
        }
    } else {
        proof {
            assert(t0@ == tv[0]);
            assert(tv[0] != kw_newmtl() && tv[0] != kw_map_ka() && tv[0] != kw_map_kd() && tv[0]
                != kw_map_ks());
        }
        Some(st)
    }
}

/// Parses a whole material library, exactly as `parse_mtl_spec` describes:
/// `None` is a format error.
pub fn parse_mtl(data: &Vec<u8>) -> (r: Option<Vec<MaterialDef>>)
    ensures
        match r {
            Some(defs) => parse_mtl_spec(data@) == Some(defs_view(defs@)),
            None => parse_mtl_spec(data@) is None,
        },
{
    broadcast use lemma_bytes_deep_view;

    let lines = lines_of(data);
    let ghost lv = split_lines(data@);
    let mut st: Vec<MaterialDef> = Vec::new();
    proof {
        assert(defs_view(st@) =~= seq![]);
        assert(lv.skip(0) =~= lv);
    }
    let mut i: usize = 0;
    while i < lines.len()
        invariant
            0 <= i <= lines.len(),
            lv == split_lines(data@),
            lines.deep_view() == lv,
            lv.len() == lines@.len(),
            mtl_fold(lv, seq![]) == mtl_fold(lv.skip(i as int), defs_view(st@)),
        decreases lines.len() - i,
    {
        proof {
            assert(lines@[i as int]@ == lv[i as int]);
            assert(lv.skip(i as int)[0] == lv[i as int]);
            assert(lv.skip(i as int).drop_first() =~= lv.skip(i + 1));
        }
        let ghost stv = defs_view(st@);
        st = match mtl_step_exec(st, &lines[i]) {
            Some(s) => s,
            None => {
                proof {
                    assert(mtl_fold(lv.skip(i as int), stv) is None);
                }
                return None;
            },
        };
        i = i + 1;
    }
    proof {
        assert(lv.skip(i as int) =~= Seq::<Seq<u8>>::empty());
    }
    Some(st)
}

/// The last definition of `name`, scanning the merged list from the back:
/// the override rule.
pub open spec fn find_last(s: Seq<MaterialDefView>, name: Seq<u8>) -> Option<MaterialDefView>
    decreases s.len(),
{
    if s.len() == 0 {
        None
    } else if s.last().name == name {
        Some(s.last())
    } else {
        find_last(s.drop_last(), name)
    }
}

/// The merged material table: every definition of every merged library, in
/// merge order. A name resolves to its last definition, so later libraries
/// override earlier ones.
pub struct MaterialTable {
    defs: Vec<MaterialDef>,
}

impl MaterialTable {
    /// The merged definitions, in merge order.
    pub closed spec fn defs_seq(self) -> Seq<MaterialDefView> {
        defs_view(self.defs@)
    }

    /// The record `name` resolves to.
    pub open spec fn spec_lookup(self, name: Seq<u8>) -> Option<MaterialDefView> {
        find_last(self.defs_seq(), name)
    }

    /// An empty table.
    pub fn new() -> (r: MaterialTable)
        ensures
            r.defs_seq() =~= Seq::<MaterialDefView>::empty(),
    {
        let r = MaterialTable { defs: Vec::new() };
        proof {
            assert(r.defs_seq() =~= Seq::<MaterialDefView>::empty());
        }
        r
    }

    /// Merges one parsed library into the table: its definitions are
    /// appended in order, so they override all earlier ones name by name.
    pub fn merge_lib(&mut self, lib: Vec<MaterialDef>)
        ensures
            final(self).defs_seq() == old(self).defs_seq() + defs_view(lib@),
    {
        let ghost d0 = self.defs_seq();
        let ghost lv = defs_view(lib@);
        let mut j: usize = 0;
        proof {
            assert(d0 + lv.take(0) =~= d0);
        }
        while j < lib.len()
            invariant
                0 <= j <= lib.len(),
                lv == defs_view(lib@),
                lv.len() == lib@.len(),
                self.defs_seq() == d0 + lv.take(j as int),
            decreases lib.len() - j,
        {
            let ghost pre = self.defs_seq();
            let m = copy_material(&lib[j]);
            self.defs.push(m);
            proof {
                assert(m@ == lv[j as int]);
                assert(self.defs_seq() =~~= pre.push(lv[j as int]));
                assert((d0 + lv.take(j as int)).push(lv[j as int]) =~~= d0 + lv.take(j + 1));
            }
            j = j + 1;
        }
        proof {
            assert(lv.take(j as int) =~= lv);
        }
    }

    /// Resolves `name` to its record, exactly the override rule: the last
    /// merged definition wins.
    pub fn lookup(&self, name: &Vec<u8>) -> (r: Option<MaterialDef>)
        ensures
            match r {
                Some(m) => self.spec_lookup(name@) == Some(m@),
                None => self.spec_lookup(name@) is None,
            },
    {
        let mut i: usize = self.defs.len();
        proof {
            assert(self.defs_seq().take(i as int) =~= self.defs_seq());
        }
        while i > 0
            invariant
                0 <= i <= self.defs.len(),
                self.defs_seq().len() == self.defs@.len(),
                find_last(self.defs_seq().take(i as int), name@) == self.spec_lookup(name@),
            decreases i,
        {
            i = i - 1;
            proof {
                assert(self.defs_seq().take(i + 1).last() == self.defs_seq()[i as int]);
                assert(self.defs_seq().take(i + 1).drop_last() =~= self.defs_seq().take(i as int));
                assert(self.defs_seq()[i as int] == self.defs@[i as int]@);
            }
            if bytes_eq(&self.defs[i].name, name) {
                let m = copy_material(&self.defs[i]);
                proof {
                    assert(m@ =~~= self.defs_seq()[i as int]);
                }
                return Some(m);
            }
        }
        proof {
            assert(self.defs_seq().take(0) =~= Seq::<MaterialDefView>::empty());
        }
        None
    }
}

/// Copies one material definition.
fn copy_material(m: &MaterialDef) -> (r: MaterialDef)
    ensures
        r@ == m@,
{
    let r = MaterialDef {
        name: copy_bytes(&m.name),
        map_ka: match &m.map_ka {
            Some(v) => Some(copy_bytes(v)),
            None => None,
        },
        map_kd: match &m.map_kd {
            Some(v) => Some(copy_bytes(v)),
            None => None,
        },
        map_ks: match &m.map_ks {
            Some(v) => Some(copy_bytes(v)),
            None => None,
        },
    };
    proof {
        assert(r@ =~~= m@);
    }
    r
}

/// Material override order: resolving a name against libraries `a` then `b`
/// yields `b`'s (last) definition whenever `b` defines the name at all, and
/// falls back to `a`'s resolution otherwise — the later library overrides
/// the earlier one.
pub proof fn lemma_override_order(a: Seq<MaterialDefView>, b: Seq<MaterialDefView>, name: Seq<u8>)
    ensures
        find_last(a + b, name) == if find_last(b, name) is Some {
            find_last(b, name)
        } else {
            find_last(a, name)
        },
    decreases b.len(),
{
    if b.len() == 0 {
        assert(a + b =~= a);
    } else {
        assert((a + b).last() == b.last());
        assert((a + b).drop_last() =~= a + b.drop_last());
        lemma_override_order(a, b.drop_last(), name);
    }
}

} // verus!
