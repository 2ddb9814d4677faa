//! Model catalog and hardware-tiered recommendation. Each tier pairs an MLX
//! weight (Apple-Silicon fast path), a GGUF reference (the llama.cpp path), and
//! an Ollama tag, so one logical model resolves to the right artifact for
//! whichever backend is active. The recommended tier scales with system RAM.
use vstd::prelude::*;

use crate::chars::{chars_of, contains, contains_str, ends_with, ends_with_str, str_eq, string_from, trim, trimmed};

verus! {

/// One rung of the capability ladder.
#[derive(Debug, Clone, Copy)]
pub struct ModelTier {
    /// Short human label for the HUD/setup UI.
    pub label: &'static str,
    /// Minimum system RAM (GB) this tier wants for a comfortable fit.
    pub min_ram_gb: u32,
    /// MLX weight id (Apple Silicon).
    pub mlx: &'static str,
    /// GGUF reference `owner/repo:file.gguf` (llama.cpp path).
    pub gguf: &'static str,
    /// Ollama model tag for this tier.
    pub ollama: &'static str,
}

/// The view of a tier: `(label, min_ram_gb, mlx, gguf, ollama)`.
pub open spec fn tier_view(t: ModelTier) -> (Seq<char>, u32, Seq<char>, Seq<char>, Seq<char>) {
    (t.label@, t.min_ram_gb, t.mlx@, t.gguf@, t.ollama@)
}

/// The capability ladder, largest first.
pub open spec fn tier_table() -> Seq<(Seq<char>, u32, Seq<char>, Seq<char>, Seq<char>)> {
    seq![
        ("Qwen3-Coder-30B-A3B"@, 32u32, "mlx-community/Qwen3-Coder-30B-A3B-Instruct-4bit-DWQ"@,
            "unsloth/Qwen3-Coder-30B-A3B-Instruct-GGUF:Qwen3-Coder-30B-A3B-Instruct-UD-Q4_K_XL.gguf"@,
            "qwen3-coder:30b"@),
        ("Qwen3-14B"@, 24u32, "mlx-community/Qwen3-14B-4bit"@, "unsloth/Qwen3-14B-GGUF:Qwen3-14B-UD-Q4_K_XL.gguf"@,
            "qwen3:14b"@),
        ("Qwen3-8B"@, 16u32, "mlx-community/Qwen3-8B-4bit"@, "unsloth/Qwen3-8B-GGUF:Qwen3-8B-UD-Q4_K_XL.gguf"@,
            "qwen3:8b"@),
        ("Qwen3-4B"@, 8u32, "mlx-community/Qwen3-4B-4bit"@,
            "unsloth/Qwen3-4B-Instruct-2507-GGUF:Qwen3-4B-Instruct-2507-UD-Q4_K_XL.gguf"@, "qwen3:4b"@),
    ]
}

/// The capability ladder, largest first.
pub fn model_tiers() -> (r: Vec<ModelTier>)
    ensures
        r@.map_values(|t: ModelTier| tier_view(t)) == tier_table(),
{
    let r = vec![
        ModelTier {
            label: "Qwen3-Coder-30B-A3B",
            min_ram_gb: 32,
            mlx: "mlx-community/Qwen3-Coder-30B-A3B-Instruct-4bit-DWQ",
            gguf: "unsloth/Qwen3-Coder-30B-A3B-Instruct-GGUF:Qwen3-Coder-30B-A3B-Instruct-UD-Q4_K_XL.gguf",
            ollama: "qwen3-coder:30b",
        },
        ModelTier {
            label: "Qwen3-14B",
            min_ram_gb: 24,
            mlx: "mlx-community/Qwen3-14B-4bit",
            gguf: "unsloth/Qwen3-14B-GGUF:Qwen3-14B-UD-Q4_K_XL.gguf",
            ollama: "qwen3:14b",
        },
        ModelTier {
            label: "Qwen3-8B",
            min_ram_gb: 16,
            mlx: "mlx-community/Qwen3-8B-4bit",
            gguf: "unsloth/Qwen3-8B-GGUF:Qwen3-8B-UD-Q4_K_XL.gguf",
            ollama: "qwen3:8b",
        },
        ModelTier {
            label: "Qwen3-4B",
            min_ram_gb: 8,
            mlx: "mlx-community/Qwen3-4B-4bit",
            gguf: "unsloth/Qwen3-4B-Instruct-2507-GGUF:Qwen3-4B-Instruct-2507-UD-Q4_K_XL.gguf",
            ollama: "qwen3:4b",
        },
    ];
    assert(r@.map_values(|t: ModelTier| tier_view(t)) =~= tier_table());
    r
}

/// A tier fits a machine with `ram_bytes` of memory when its minimum is within
/// 80% of the RAM: `min_ram_gb * 10^9 <= ram_bytes * 0.8`.
pub open spec fn tier_fits(min_ram_gb: u32, ram_bytes: nat) -> bool {
    min_ram_gb * 10000000000 <= ram_bytes * 8
}

/// The index of the first (largest) tier of `table[i..]` that fits; the last
/// (smallest) tier when none does.
pub open spec fn fitting_index(table: Seq<(Seq<char>, u32, Seq<char>, Seq<char>, Seq<char>)>, ram_bytes: nat, i: int) -> int
    decreases table.len() - i,
{
    if i < 0 || i >= table.len() {
        table.len() - 1
    } else if tier_fits(table[i].1, ram_bytes) {
        i
    } else {
        fitting_index(table, ram_bytes, i + 1)
    }
}

/// Recommend the largest tier that fits in roughly 80% of the machine's RAM,
/// falling back to the smallest tier on very low-memory machines.
pub fn recommend_tier_for_bytes(ram_bytes: u64) -> (r: ModelTier)
    ensures
        tier_view(r) == tier_table()[fitting_index(tier_table(), ram_bytes as nat, 0)],
{
    let tiers = model_tiers();
    let ghost tv = tiers@.map_values(|t: ModelTier| tier_view(t));
    let usable: u128 = (ram_bytes as u128) * 8;
    let mut i: usize = 0;
    while i < tiers.len()
        invariant
            tv == tiers@.map_values(|t: ModelTier| tier_view(t)),
            tv == tier_table(),
            i <= tiers.len(),
            usable == ram_bytes * 8,
            fitting_index(tv, ram_bytes as nat, i as int) == fitting_index(tv, ram_bytes as nat, 0),
        decreases tiers.len() - i,
    {
        assert(tv[i as int] == tier_view(tiers@[i as int]));
        if (tiers[i].min_ram_gb as u128) * 10000000000 <= usable {
            return tiers[i];
        }
        i = i + 1;
    }
    assert(tv[3] == tier_view(tiers@[3]));
    tiers[3]
}

/// The index of the first tier of `table[i..]` whose MLX id or GGUF ref is
/// `id`.
pub open spec fn tier_index_of(table: Seq<(Seq<char>, u32, Seq<char>, Seq<char>, Seq<char>)>, id: Seq<char>, i: int) -> Option<int>
    decreases table.len() - i,
{
    if i < 0 || i >= table.len() {
        None
    } else if table[i].2 == id || table[i].3 == id {
        Some(i)
    } else {
        tier_index_of(table, id, i + 1)
    }
}

/// Find the catalog tier a model id belongs to (by MLX id or GGUF ref), if any.
pub fn tier_for_model(model_id: &str) -> (r: Option<ModelTier>)
    ensures
        match tier_index_of(tier_table(), model_id@, 0) {
            Some(i) => r matches Some(t) && tier_view(t) == tier_table()[i],
            None => r is None,
        },
{
    let tiers = model_tiers();
    let ghost tv = tiers@.map_values(|t: ModelTier| tier_view(t));
    let mut i: usize = 0;
    while i < tiers.len()
        invariant
            tv == tiers@.map_values(|t: ModelTier| tier_view(t)),
            tv == tier_table(),
            i <= tiers.len(),
            tier_index_of(tv, model_id@, i as int) == tier_index_of(tv, model_id@, 0),
        decreases tiers.len() - i,
    {
        assert(tv[i as int] == tier_view(tiers@[i as int]));
        if str_eq(tiers[i].mlx, model_id) || str_eq(tiers[i].gguf, model_id) {
            return Some(tiers[i]);
        }
        i = i + 1;
    }
    None
}

/// The GGUF reference for a logical model id: the trimmed id itself when it
/// already names a `.gguf`, the tier's GGUF ref for a catalog id, else empty.
pub open spec fn gguf_ref_spec(model_id: Seq<char>) -> Seq<char> {
    let id = trim(model_id);
    if contains(id, ".gguf"@) {
        id
    } else {
        match tier_index_of(tier_table(), id, 0) {
            Some(i) => tier_table()[i].3,
            None => seq![],
        }
    }
}

/// Resolve a GGUF reference for a logical model id. An id that already looks
/// like a GGUF ref is returned as-is; a known MLX id maps to that tier's GGUF;
/// otherwise an empty string (the caller errors clearly).
pub fn gguf_ref_for_model(model_id: &str) -> (r: String)
    ensures
        r@ == gguf_ref_spec(model_id@),
{
    let id = trimmed(model_id);
    if contains_str(id.as_str(), ".gguf") {
        return id;
    }
    match tier_for_model(id.as_str()) {
        Some(t) => String::from_str(t.gguf),
        None => String::new(),
    }
}

/// The last `sep`-separated segment of `s` (everything after its last `sep`).
pub open spec fn last_segment(s: Seq<char>, sep: char) -> Seq<char>
    decreases s.len(),
{
    if s.len() == 0 || s.last() == sep {
        seq![]
    } else {
        last_segment(s.drop_last(), sep).push(s.last())
    }
}

/// `s` without its trailing `sep` characters.
pub open spec fn trim_end_char(s: Seq<char>, sep: char) -> Seq<char>
    decreases s.len(),
{
    if s.len() > 0 && s.last() == sep {
        trim_end_char(s.drop_last(), sep)
    } else {
        s
    }
}

/// The local filename a model id downloads to: the last non-empty `/` segment
/// (`model` when there is none), keeping only the part after its last `:`, with
/// a `.gguf` suffix added unless already present.
pub open spec fn gguf_file_spec(model_id: Seq<char>) -> Seq<char> {
    let u = trim_end_char(model_id, '/');
    let leaf = if u.len() == 0 { "model"@ } else { last_segment(u, '/') };
    let leaf = last_segment(leaf, ':');
    if ends_with(leaf, ".gguf"@) {
        leaf
    } else {
        leaf + ".gguf"@
    }
}

/// The start of `last_segment(v[..end], sep)` inside `v`.
fn last_segment_start(v: &Vec<char>, end: usize, sep: char) -> (r: usize)
    requires
        end <= v.len(),
    ensures
        r <= end,
        v@.subrange(r as int, end as int) == last_segment(v@.take(end as int), sep),
{
    let mut i = end;
    while i > 0 && v[i - 1] != sep
        invariant
            i <= end <= v.len(),
            last_segment(v@.take(end as int), sep) == last_segment(v@.take(i as int), sep) + v@.subrange(i as int, end as int),
        decreases i,
    {
        assert(v@.take(i as int).drop_last() == v@.take(i - 1));
        assert(v@.subrange(i - 1, end as int) == seq![v@[i - 1]] + v@.subrange(i as int, end as int));
        i = i - 1;
    }
    assert(last_segment(v@.take(i as int), sep) == Seq::<char>::empty());
    i
}

/// Map a model id to the local GGUF filename it downloads to. A HuggingFace
/// GGUF reference uses `owner/repo:file.gguf`, so the filename is the part after
/// the last colon (a bare `:` is illegal in filenames on Windows); a plain MLX id
/// maps to its last path segment with a `.gguf` suffix.
pub fn gguf_file_for(model_id: &str) -> (r: String)
    ensures
        r@ == gguf_file_spec(model_id@),
{
    let v = chars_of(model_id);
    let mut j = v.len();
    assert(v@.take(j as int) == v@);
    while j > 0 && v[j - 1] == '/'
        invariant
            j <= v.len(),
            trim_end_char(v@, '/') == trim_end_char(v@.take(j as int), '/'),
        decreases j,
    {
        assert(v@.take(j as int).drop_last() == v@.take(j - 1));
        j = j - 1;
    }
    assert(trim_end_char(v@.take(j as int), '/') == v@.take(j as int));
    let leaf: Vec<char> = if j == 0 {
        let m = chars_of("model");
        m
    } else {
        let i = last_segment_start(&v, j, '/');
        let mut l: Vec<char> = Vec::new();
        crate::paths::extend_from(&mut l, &v, i, j);
        l
    };
    let k = last_segment_start(&leaf, leaf.len(), ':');
    assert(leaf@.take(leaf.len() as int) == leaf@);
    let name = string_from(&leaf, k, leaf.len());
    if ends_with_str(name.as_str(), ".gguf") {
        name
    } else {
        let mut out = name;
        out.append(".gguf");
        out
    }
}

proof fn lemma_fitting_index(table: Seq<(Seq<char>, u32, Seq<char>, Seq<char>, Seq<char>)>, ram_bytes: nat, i: int)
    requires
        0 <= i < table.len(),
    ensures
        i <= fitting_index(table, ram_bytes, i) < table.len(),
        forall|j: int| i <= j < fitting_index(table, ram_bytes, i) ==> !tier_fits(#[trigger] table[j].1, ram_bytes),
        (exists|j: int| i <= j < table.len() && tier_fits(#[trigger] table[j].1, ram_bytes)) ==> tier_fits(
            table[fitting_index(table, ram_bytes, i)].1,
            ram_bytes,
        ),
    decreases table.len() - i,
{
    if !tier_fits(table[i].1, ram_bytes) {
        assert(fitting_index(table, ram_bytes, i) == fitting_index(table, ram_bytes, i + 1));
        if i + 1 < table.len() {
            lemma_fitting_index(table, ram_bytes, i + 1);
            if exists|j: int| i <= j < table.len() && tier_fits(#[trigger] table[j].1, ram_bytes) {
                let j = choose|j: int| i <= j < table.len() && tier_fits(#[trigger] table[j].1, ram_bytes);
                assert(j != i);
                assert(i + 1 <= j);
            }
        } else {
            assert(fitting_index(table, ram_bytes, i + 1) == table.len() - 1);
        }
    } else {
        assert(fitting_index(table, ram_bytes, i) == i);
    }
}

/// The recommended tier is the largest one whose minimum fits in 80% of the
/// machine's RAM: every larger tier would not fit, and the chosen one fits
/// whenever any does (otherwise it is the smallest).
pub proof fn lemma_recommended_tier_fits(ram_bytes: nat)
    ensures
        0 <= fitting_index(tier_table(), ram_bytes, 0) < tier_table().len(),
        forall|j: int|
            0 <= j < fitting_index(tier_table(), ram_bytes, 0) ==> !tier_fits(#[trigger] tier_table()[j].1, ram_bytes),
        (exists|j: int| 0 <= j < tier_table().len() && tier_fits(#[trigger] tier_table()[j].1, ram_bytes)) ==> tier_fits(
            tier_table()[fitting_index(tier_table(), ram_bytes, 0)].1,
            ram_bytes,
        ),
        !(exists|j: int| 0 <= j < tier_table().len() && tier_fits(#[trigger] tier_table()[j].1, ram_bytes))
            ==> fitting_index(tier_table(), ram_bytes, 0) == tier_table().len() - 1,
{
    lemma_fitting_index(tier_table(), ram_bytes, 0);
    let i = fitting_index(tier_table(), ram_bytes, 0);
    if !(exists|j: int| 0 <= j < tier_table().len() && tier_fits(#[trigger] tier_table()[j].1, ram_bytes)) {
        if i < tier_table().len() - 1 {
            lemma_fitting_stops(tier_table(), ram_bytes, 0);
        }
    }
}

proof fn lemma_fitting_stops(table: Seq<(Seq<char>, u32, Seq<char>, Seq<char>, Seq<char>)>, ram_bytes: nat, i: int)
    requires
        0 <= i <= table.len(),
        table.len() > 0,
        fitting_index(table, ram_bytes, i) < table.len() - 1,
    ensures
        tier_fits(table[fitting_index(table, ram_bytes, i)].1, ram_bytes),
    decreases table.len() - i,
{
    if i < table.len() && !tier_fits(table[i].1, ram_bytes) {
        assert(fitting_index(table, ram_bytes, i) == fitting_index(table, ram_bytes, i + 1));
        lemma_fitting_stops(table, ram_bytes, i + 1);
    } else if i == table.len() {
        assert(fitting_index(table, ram_bytes, i) == table.len() - 1);
    } else {
        assert(fitting_index(table, ram_bytes, i) == i);
    }
}

/// The last `sep`-separated segment of `s` is a suffix of `s` that holds no
/// `sep`.
proof fn lemma_last_segment_suffix(s: Seq<char>, sep: char)
    ensures
        last_segment(s, sep).len() <= s.len(),
        last_segment(s, sep) == s.skip(s.len() - last_segment(s, sep).len()),
        !last_segment(s, sep).contains(sep),
    decreases s.len(),
{
    if !(s.len() == 0 || s.last() == sep) {
        let p = s.drop_last();
        lemma_last_segment_suffix(p, sep);
        let lp = last_segment(p, sep);
        let r = last_segment(s, sep);
        assert(r == lp.push(s.last()));
        assert(r =~= s.skip(s.len() - r.len()));
        assert forall|i: int| 0 <= i < r.len() implies r[i] != sep by {
            if i < lp.len() {
                assert(r[i] == lp[i]);
                assert(!lp.contains(sep));
            }
        }
    } else {
        assert(last_segment(s, sep) =~= s.skip(s.len() - 0));
    }
}

/// Every local GGUF filename ends in `.gguf` and holds neither `/` nor `:`, so
/// it is a single, portable file name inside the models directory.
pub proof fn lemma_gguf_file_is_plain_name(model_id: Seq<char>)
    ensures
        ends_with(gguf_file_spec(model_id), ".gguf"@),
        !gguf_file_spec(model_id).contains('/'),
        !gguf_file_spec(model_id).contains(':'),
{
    reveal_strlit("model");
    reveal_strlit(".gguf");
    let u = trim_end_char(model_id, '/');
    let leaf = if u.len() == 0 { "model"@ } else { last_segment(u, '/') };
    lemma_last_segment_suffix(u, '/');
    assert(!leaf.contains('/')) by {
        if u.len() == 0 {
            assert(leaf[0] != '/' && leaf[1] != '/' && leaf[2] != '/' && leaf[3] != '/' && leaf[4] != '/');
        }
    }
    let leaf2 = last_segment(leaf, ':');
    lemma_last_segment_suffix(leaf, ':');
    assert forall|i: int| 0 <= i < leaf2.len() implies leaf2[i] != '/' by {
        assert(leaf2[i] == leaf[leaf.len() - leaf2.len() + i]);
    }
    let g = ".gguf"@;
    if !ends_with(leaf2, g) {
        let r = leaf2 + g;
        assert(r.skip(r.len() - g.len()) =~= g);
        assert forall|i: int| 0 <= i < r.len() implies r[i] != '/' && r[i] != ':' by {
            if i < leaf2.len() {
                assert(r[i] == leaf2[i]);
            } else {
                assert(r[i] == g[i - leaf2.len()]);
            }
        }
    }
}

proof fn lemma_fitting_index_antitone(
    table: Seq<(Seq<char>, u32, Seq<char>, Seq<char>, Seq<char>)>,
    a: nat,
    b: nat,
    i: int,
)
    requires
        a <= b,
        0 <= i,
    ensures
        fitting_index(table, b, i) <= fitting_index(table, a, i),
    decreases table.len() - i,
{
    if i < table.len() {
        if tier_fits(table[i].1, a) {
            assert(table[i].1 * 10000000000 <= a * 8 <= b * 8) by (nonlinear_arith)
                requires table[i].1 * 10000000000 <= a * 8, a <= b;
            assert(tier_fits(table[i].1, b));
        } else if tier_fits(table[i].1, b) {
            lemma_fitting_bound(table, a, i + 1);
        } else {
            lemma_fitting_index_antitone(table, a, b, i + 1);
        }
    }
}

proof fn lemma_fitting_bound(table: Seq<(Seq<char>, u32, Seq<char>, Seq<char>, Seq<char>)>, ram: nat, i: int)
    requires
        0 <= i <= table.len(),
    ensures
        fitting_index(table, ram, i) >= i - 1,
    decreases table.len() - i,
{
    if i < table.len() && !tier_fits(table[i].1, ram) {
        lemma_fitting_bound(table, ram, i + 1);
    }
}

/// More memory never lowers the recommendation: the tier recommended for `b`
/// bytes of RAM wants at least as much memory as the one recommended for `a <= b`.
pub proof fn lemma_recommendation_grows_with_ram(a: nat, b: nat)
    requires
        a <= b,
    ensures
        tier_table()[fitting_index(tier_table(), a, 0)].1 <= tier_table()[fitting_index(tier_table(), b, 0)].1,
{
    let t = tier_table();
    lemma_fitting_index_antitone(t, a, b, 0);
    lemma_recommended_tier_fits(a);
    lemma_recommended_tier_fits(b);
    let ia = fitting_index(t, a, 0);
    let ib = fitting_index(t, b, 0);
    assert(t[0].1 == 32 && t[1].1 == 24 && t[2].1 == 16 && t[3].1 == 8);
}

} // verus!
