//! Printing materials and the catalog they are looked up in.
//!
//! The per-material numbers (density, price per kilogram, base fee, margin)
//! are single-precision floats; the library holds each as its IEEE-754
//! binary32 encoding (`f32::to_bits`) and never computes with them.
use vstd::prelude::*;

verus! {

/// How a material is printed.
#[derive(Debug, Clone, Copy, PartialEq, Eq, Structural)]
pub enum MaterialKind {
    Fdm,
    Resin,
}

/// A printing material and its price parameters.
#[derive(Debug)]
pub struct MaterialProfile {
    pub id: String,
    pub display_name: String,
    pub kind: MaterialKind,
    /// Density in g/cm³, binary32 encoding.
    pub density_g_cm3_bits: u32,
    /// Price per kilogram, binary32 encoding.
    pub cost_per_kg_bits: u32,
    /// Fixed fee per order, binary32 encoding.
    pub base_fee_bits: u32,
    /// Factor applied to the order total, binary32 encoding.
    pub margin_multiplier_bits: u32,
}

impl Clone for MaterialProfile {
    fn clone(&self) -> (r: Self)
        ensures
            r == *self,
    {
        MaterialProfile {
            id: self.id.clone(),
            display_name: self.display_name.clone(),
            kind: self.kind,
            density_g_cm3_bits: self.density_g_cm3_bits,
            cost_per_kg_bits: self.cost_per_kg_bits,
            base_fee_bits: self.base_fee_bits,
            margin_multiplier_bits: self.margin_multiplier_bits,
        }
    }
}

impl MaterialProfile {
    pub fn new(
        id: String,
        display_name: String,
        kind: MaterialKind,
        density_g_cm3_bits: u32,
        cost_per_kg_bits: u32,
        base_fee_bits: u32,
        margin_multiplier_bits: u32,
    ) -> (p: MaterialProfile)
        ensures
            p.id == id,
            p.display_name == display_name,
            p.kind == kind,
            p.density_g_cm3_bits == density_g_cm3_bits,
            p.cost_per_kg_bits == cost_per_kg_bits,
            p.base_fee_bits == base_fee_bits,
            p.margin_multiplier_bits == margin_multiplier_bits,
    {
        MaterialProfile {
            id,
            display_name,
            kind,
            density_g_cm3_bits,
            cost_per_kg_bits,
            base_fee_bits,
            margin_multiplier_bits,
        }
    }
}

/// The binary32 encoding of a value that compares greater than `0.0`:
/// sign bit clear, not zero, and not a NaN (exponent all ones with a
/// non-zero fraction). Positive infinity is `0x7f80_0000`.
pub open spec fn f32_bits_positive(bits: u32) -> bool {
    0 < bits <= 0x7f80_0000
}

/// The profiles of `ps` keyed by id; a later profile wins over an earlier one
/// with the same id.
pub open spec fn profiles_map(ps: Seq<MaterialProfile>) -> Map<Seq<char>, MaterialProfile>
    decreases ps.len(),
{
    if ps.len() == 0 {
        Map::empty()
    } else {
        profiles_map(ps.drop_last()).insert(ps.last().id@, ps.last())
    }
}

/// No two profiles of `ps` share an id.
pub open spec fn ids_unique(ps: Seq<MaterialProfile>) -> bool {
    forall|i: int, j: int| 0 <= i < ps.len() && 0 <= j < ps.len() && i != j ==> #[trigger] ps[i].id@
        != #[trigger] ps[j].id@
}

/// `ps` lists the profiles of `m`, each once, under its own id.
pub open spec fn lists_catalog(ps: Seq<MaterialProfile>, m: Map<Seq<char>, MaterialProfile>) -> bool {
    &&& ids_unique(ps)
    &&& forall|i: int| 0 <= i < ps.len() ==> #[trigger] m.contains_key(ps[i].id@) && m[ps[i].id@]
        == ps[i]
    &&& forall|k: Seq<char>|
        #[trigger] m.contains_key(k) ==> exists|i: int| 0 <= i < ps.len() && ps[i].id@ == k
}

pub proof fn lemma_profiles_map(ps: Seq<MaterialProfile>)
    requires
        ids_unique(ps),
    ensures
        lists_catalog(ps, profiles_map(ps)),
        forall|k: Seq<char>|
            (exists|i: int| 0 <= i < ps.len() && ps[i].id@ == k) ==> #[trigger] profiles_map(
                ps,
            ).contains_key(k),
    decreases ps.len(),
{
    if ps.len() > 0 {
        let q = ps.drop_last();
        assert forall|i: int, j: int|
            0 <= i < q.len() && 0 <= j < q.len() && i != j implies #[trigger] q[i].id@
            != #[trigger] q[j].id@ by {
            assert(q[i] == ps[i] && q[j] == ps[j]);
        }
        lemma_profiles_map(q);
        let m = profiles_map(ps);
        let last = ps.last();
        assert forall|i: int| 0 <= i < ps.len() implies #[trigger] m.contains_key(ps[i].id@)
            && m[ps[i].id@] == ps[i] by {
            if i < ps.len() - 1 {
                assert(q[i] == ps[i]);
                assert(ps[i].id@ != ps[ps.len() - 1].id@);
            }
        }
        assert forall|k: Seq<char>| #[trigger] m.contains_key(k) implies exists|i: int|
            0 <= i < ps.len() && ps[i].id@ == k by {
            if k != last.id@ {
                let i = choose|i: int| 0 <= i < q.len() && q[i].id@ == k;
                assert(ps[i] == q[i]);
            } else {
                assert(ps[ps.len() - 1].id@ == k);
            }
        }
        assert forall|k: Seq<char>|
            (exists|i: int| 0 <= i < ps.len() && ps[i].id@ == k) implies #[trigger] m.contains_key(
            k,
        ) by {
            let i = choose|i: int| 0 <= i < ps.len() && ps[i].id@ == k;
            if i < ps.len() - 1 {
                assert(q[i] == ps[i]);
            }
        }
    }
}

/// Materials keyed by id.
#[derive(Debug)]
pub struct MaterialCatalog {
    entries: Vec<MaterialProfile>,
}

impl MaterialCatalog {
    #[verifier::type_invariant]
    spec fn entries_unique(self) -> bool {
        ids_unique(self.entries@)
    }

    pub closed spec fn profiles(self) -> Map<Seq<char>, MaterialProfile> {
        profiles_map(self.entries@)
    }
}

impl Default for MaterialCatalog {
    /// An empty catalog.
    fn default() -> (c: MaterialCatalog)
        ensures
            c@ == Map::<Seq<char>, MaterialProfile>::empty(),
    {
        MaterialCatalog { entries: Vec::new() }
    }
}

impl View for MaterialCatalog {
    type V = Map<Seq<char>, MaterialProfile>;

    open spec fn view(&self) -> Map<Seq<char>, MaterialProfile> {
        self.profiles()
    }
}

pub open spec fn id_pla() -> Seq<char> {
    seq!['p', 'l', 'a']
}

pub open spec fn id_abs() -> Seq<char> {
    seq!['a', 'b', 's']
}

pub open spec fn id_pc() -> Seq<char> {
    seq!['p', 'c']
}

pub open spec fn id_tpu() -> Seq<char> {
    seq!['t', 'p', 'u']
}

/// `p` is the FDM profile `id` / `name` with the given density and price per
/// kilogram, no fee of its own (`0.0`) and a margin of `1.0`.
pub open spec fn is_fdm_profile(
    p: MaterialProfile,
    id: Seq<char>,
    name: Seq<char>,
    density_bits: u32,
    cost_bits: u32,
) -> bool {
    &&& p.id@ == id
    &&& p.display_name@ == name
    &&& p.kind == MaterialKind::Fdm
    &&& p.density_g_cm3_bits == density_bits
    &&& p.cost_per_kg_bits == cost_bits
    &&& p.base_fee_bits == 0
    &&& p.margin_multiplier_bits == 0x3f80_0000
}

/// The built-in catalog: PLA (1.25 g/cm³, 90.0/kg), ABS (1.05, 125.0),
/// PC (1.2, 240.0) and TPU (1.25, 210.0).
pub open spec fn is_default_catalog(m: Map<Seq<char>, MaterialProfile>) -> bool {
    &&& m.dom() == set![id_pla(), id_abs(), id_pc(), id_tpu()]
    &&& is_fdm_profile(m[id_pla()], id_pla(), seq!['P', 'L', 'A'], 0x3fa0_0000, 0x42b4_0000)
    &&& is_fdm_profile(m[id_abs()], id_abs(), seq!['A', 'B', 'S'], 0x3f86_6666, 0x42fa_0000)
    &&& is_fdm_profile(m[id_pc()], id_pc(), seq!['P', 'C'], 0x3f99_999a, 0x4370_0000)
    &&& is_fdm_profile(m[id_tpu()], id_tpu(), seq!['T', 'P', 'U'], 0x3fa0_0000, 0x4352_0000)
}

fn fdm_profile(id: &str, name: &str, density_bits: u32, cost_bits: u32) -> (p: MaterialProfile)
    ensures
        is_fdm_profile(p, id@, name@, density_bits, cost_bits),
{
    MaterialProfile::new(
        String::from_str(id),
        String::from_str(name),
        MaterialKind::Fdm,
        density_bits,
        cost_bits,
        0,
        0x3f80_0000,
    )
}

/// The index of the profile whose id is `key`.
fn find_index(entries: &Vec<MaterialProfile>, key: &String) -> (r: Option<usize>)
    ensures
        r matches Some(i) ==> i < entries@.len() && entries@[i as int].id@ == key@,
        r is None ==> forall|j: int| 0 <= j < entries@.len() ==> entries@[j].id@ != key@,
{
    let mut i: usize = 0;
    while i < entries.len()
        invariant
            i <= entries@.len(),
            forall|j: int| 0 <= j < i ==> entries@[j].id@ != key@,
        decreases entries@.len() - i,
    {
        if entries[i].id == *key {
            return Some(i);
        }
        i = i + 1;
    }
    None
}

impl MaterialCatalog {
    /// The built-in FDM materials.
    pub fn with_defaults() -> (c: MaterialCatalog)
        ensures
            is_default_catalog(c@),
    {
        proof {
            reveal_strlit("pla");
            reveal_strlit("PLA");
            reveal_strlit("abs");
            reveal_strlit("ABS");
            reveal_strlit("pc");
            reveal_strlit("PC");
            reveal_strlit("tpu");
            reveal_strlit("TPU");
            assert("pla"@ =~= id_pla());
            assert("abs"@ =~= id_abs());
            assert("pc"@ =~= id_pc());
            assert("tpu"@ =~= id_tpu());
            assert("PLA"@ =~= seq!['P', 'L', 'A']);
            assert("ABS"@ =~= seq!['A', 'B', 'S']);
            assert("PC"@ =~= seq!['P', 'C']);
            assert("TPU"@ =~= seq!['T', 'P', 'U']);
        }
        let mut entries: Vec<MaterialProfile> = Vec::new();
        entries.push(fdm_profile("pla", "PLA", 0x3fa0_0000, 0x42b4_0000));
        entries.push(fdm_profile("abs", "ABS", 0x3f86_6666, 0x42fa_0000));
        entries.push(fdm_profile("pc", "PC", 0x3f99_999a, 0x4370_0000));
        entries.push(fdm_profile("tpu", "TPU", 0x3fa0_0000, 0x4352_0000));
        let ghost ps = entries@;
        assert(ps[0].id@ == id_pla() && ps[1].id@ == id_abs() && ps[2].id@ == id_pc() && ps[3].id@
            == id_tpu());
        assert(ids_unique(ps));
        proof {
            lemma_profiles_map(ps);
            let m = profiles_map(ps);
            assert(m.dom() =~= set![id_pla(), id_abs(), id_pc(), id_tpu()]) by {
                assert forall|k: Seq<char>| m.contains_key(k) implies set![
                    id_pla(),
                    id_abs(),
                    id_pc(),
                    id_tpu(),
                ].contains(k) by {
                    let i = choose|i: int| 0 <= i < ps.len() && ps[i].id@ == k;
                }
                assert(m.contains_key(ps[0].id@) && m.contains_key(ps[1].id@) && m.contains_key(
                    ps[2].id@,
                ) && m.contains_key(ps[3].id@));
            }
            assert(m.contains_key(ps[0].id@));
            assert(m.contains_key(ps[1].id@));
            assert(m.contains_key(ps[2].id@));
            assert(m.contains_key(ps[3].id@));
            assert(m[id_pla()] == ps[0] && m[id_abs()] == ps[1] && m[id_pc()] == ps[2]
                && m[id_tpu()] == ps[3]);
        }
        MaterialCatalog { entries }
    }

    /// The profiles of the catalog, each once, in no particular order.
    pub fn into_inner(self) -> (ps: Vec<MaterialProfile>)
        ensures
            lists_catalog(ps@, self@),
    {
        proof {
            use_type_invariant(&self);
            lemma_profiles_map(self.entries@);
        }
        self.entries
    }

    /// The profile with id `id`.
    pub fn get(&self, id: &str) -> (r: Option<&MaterialProfile>)
        ensures
            match r {
                Some(p) => self@.contains_key(id@) && *p == self@[id@],
                None => !self@.contains_key(id@),
            },
    {
        proof {
            use_type_invariant(self);
            lemma_profiles_map(self.entries@);
        }
        let key = String::from_str(id);
        match find_index(&self.entries, &key) {
            Some(i) => {
                assert(self.entries@[i as int].id@ == id@);
                assert(self@.contains_key(self.entries@[i as int].id@));
                Some(&self.entries[i])
            },
            None => {
                proof {
                    if self@.contains_key(id@) {
                        let j = choose|j: int|
                            0 <= j < self.entries@.len() && self.entries@[j].id@ == id@;
                        assert(false);
                    }
                }
                None
            },
        }
    }

    /// The profiles of the catalog, each once, in no particular order.
    pub fn iter(&self) -> (ps: &[MaterialProfile])
        ensures
            lists_catalog(ps@, self@),
    {
        proof {
            use_type_invariant(self);
            lemma_profiles_map(self.entries@);
        }
        self.entries.as_slice()
    }

    /// Adds `profile` under its id, replacing the profile that had that id.
    pub fn insert(&mut self, profile: MaterialProfile)
        ensures
            final(self)@ == old(self)@.insert(profile.id@, profile),
    {
        proof {
            use_type_invariant(&*self);
            lemma_profiles_map(self.entries@);
        }
        let ghost old_ps = self.entries@;
        let ghost old_map = profiles_map(old_ps);
        let found = find_index(&self.entries, &profile.id);
        let ghost k = profile.id@;
        match found {
            Some(idx) => {
                let mut entries: Vec<MaterialProfile> = Vec::new();
                std::mem::swap(&mut entries, &mut self.entries);
                assert(entries@ == old_ps);
                entries.set(idx, profile);
                let ghost ps = entries@;
                assert(ids_unique(ps)) by {
                    assert forall|a: int, b: int|
                        0 <= a < ps.len() && 0 <= b < ps.len() && a != b implies #[trigger] ps[a].id@
                        != #[trigger] ps[b].id@ by {
                        if a != idx && b != idx {
                            assert(ps[a] == old_ps[a] && ps[b] == old_ps[b]);
                        } else if a == idx {
                            assert(ps[b] == old_ps[b]);
                            assert(old_ps[idx as int].id@ == k);
                        } else {
                            assert(ps[a] == old_ps[a]);
                            assert(old_ps[idx as int].id@ == k);
                        }
                    }
                }
                proof {
                    lemma_profiles_map(ps);
                    let m = profiles_map(ps);
                    assert forall|key: Seq<char>| #[trigger] m.contains_key(key)
                        == old_map.insert(k, ps[idx as int]).contains_key(key) by {
                        if m.contains_key(key) {
                            let a = choose|a: int| 0 <= a < ps.len() && ps[a].id@ == key;
                            if a != idx {
                                assert(ps[a] == old_ps[a]);
                            }
                        }
                        if old_map.contains_key(key) && key != k {
                            let a = choose|a: int| 0 <= a < old_ps.len() && old_ps[a].id@ == key;
                            assert(a != idx);
                            assert(ps[a] == old_ps[a]);
                        }
                    }
                    assert forall|key: Seq<char>| #[trigger] m.contains_key(key) implies m[key]
                        == old_map.insert(k, ps[idx as int])[key] by {
                        let a = choose|a: int| 0 <= a < ps.len() && ps[a].id@ == key;
                        if a != idx {
                            assert(ps[a] == old_ps[a]);
                        }
                    }
                    assert(m =~= old_map.insert(k, ps[idx as int]));
                }
                self.entries = entries;
            },
            None => {
                let mut entries: Vec<MaterialProfile> = Vec::new();
                std::mem::swap(&mut entries, &mut self.entries);
                assert(entries@ == old_ps);
                entries.push(profile);
                let ghost ps = entries@;
                assert(ps.drop_last() =~= old_ps);
                assert(ids_unique(ps)) by {
                    assert forall|a: int, b: int|
                        0 <= a < ps.len() && 0 <= b < ps.len() && a != b implies #[trigger] ps[a].id@
                        != #[trigger] ps[b].id@ by {
                        if a < old_ps.len() && b < old_ps.len() {
                            assert(ps[a] == old_ps[a] && ps[b] == old_ps[b]);
                        } else if a < old_ps.len() {
                            assert(ps[a] == old_ps[a]);
                        } else {
                            assert(ps[b] == old_ps[b]);
                        }
                    }
                }
                self.entries = entries;
            },
        }
    }
}

} // verus!
