use vstd::prelude::*;
use crate::text::{opt_view, str_eq, str_contains, has_substring};
use crate::settings::clone_opt_string;

verus! {

/// What an encoder descriptor says.
pub struct EncoderModel {
    pub id: Seq<char>,
    pub name: Seq<char>,
    pub description: Seq<char>,
    pub is_hardware: bool,
    pub required_memory: Option<Seq<char>>,
}

/// An H.264 video encoder that can be selected.
#[derive(Debug)]
pub struct VideoEncoderDescriptor {
    /// Element factory name.
    pub id: String,
    /// Human-readable name.
    pub name: String,
    pub description: String,
    pub is_hardware: bool,
    /// Memory type the encoder's input must live in, where it needs one.
    pub required_memory: Option<String>,
}

impl View for VideoEncoderDescriptor {
    type V = EncoderModel;

    open spec fn view(&self) -> EncoderModel {
        EncoderModel {
            id: self.id@,
            name: self.name@,
            description: self.description@,
            is_hardware: self.is_hardware,
            required_memory: opt_view(self.required_memory),
        }
    }
}

impl Clone for VideoEncoderDescriptor {
    fn clone(&self) -> (res: Self)
        ensures
            res@ == self@,
    {
        VideoEncoderDescriptor {
            id: self.id.clone(),
            name: self.name.clone(),
            description: self.description.clone(),
            is_hardware: self.is_hardware,
            required_memory: clone_opt_string(&self.required_memory),
        }
    }
}

/// The models of a sequence of descriptors, in order.
pub open spec fn encoder_models(es: Seq<VideoEncoderDescriptor>) -> Seq<EncoderModel> {
    es.map_values(|e: VideoEncoderDescriptor| e@)
}

/// The first descriptor with this id.
pub fn find_video_encoder(encoders: &Vec<VideoEncoderDescriptor>, id: &str) -> (r: Option<VideoEncoderDescriptor>)
    ensures
        match r {
            Some(d) => exists|i: int|
                0 <= i < encoders@.len() && #[trigger] encoders@[i].id@ == id@ && d@ == encoders@[i]@
                    && forall|j: int| 0 <= j < i ==> #[trigger] encoders@[j].id@ != id@,
            None => forall|i: int| 0 <= i < encoders@.len() ==> #[trigger] encoders@[i].id@ != id@,
        },
{
    let n = encoders.len();
    for i in 0..n
        invariant
            n == encoders@.len(),
            forall|j: int| 0 <= j < i ==> #[trigger] encoders@[j].id@ != id@,
    {
        if str_eq(encoders[i].id.as_str(), id) {
            let d = encoders[i].clone();
            assert(encoders@[i as int].id@ == id@);
            return Some(d);
        }
    }
    None
}

/// Strict lexicographic order on character sequences, comparing code points.
pub open spec fn lex_lt(a: Seq<char>, b: Seq<char>) -> bool
    decreases a.len(),
{
    if a.len() == 0 {
        b.len() > 0
    } else if b.len() == 0 {
        false
    } else if (a[0] as int) < (b[0] as int) {
        true
    } else if a[0] == b[0] {
        lex_lt(a.drop_first(), b.drop_first())
    } else {
        false
    }
}

/// `lex_lt` is a strict total order.
pub proof fn lemma_lex_lt_irreflexive(a: Seq<char>)
    ensures
        !lex_lt(a, a),
    decreases a.len(),
{
    if a.len() > 0 {
        lemma_lex_lt_irreflexive(a.drop_first());
    }
}

pub proof fn lemma_lex_lt_transitive(a: Seq<char>, b: Seq<char>, c: Seq<char>)
    requires
        lex_lt(a, b),
        lex_lt(b, c),
    ensures
        lex_lt(a, c),
    decreases a.len(),
{
    if a.len() > 0 && b.len() > 0 && c.len() > 0 {
        if a[0] == b[0] && b[0] == c[0] {
            lemma_lex_lt_transitive(a.drop_first(), b.drop_first(), c.drop_first());
        }
    }
}

pub proof fn lemma_lex_lt_total(a: Seq<char>, b: Seq<char>)
    ensures
        a == b || lex_lt(a, b) || lex_lt(b, a),
    decreases a.len(),
{
    if a.len() > 0 && b.len() > 0 {
        if a[0] == b[0] {
            lemma_lex_lt_total(a.drop_first(), b.drop_first());
            if a.drop_first() == b.drop_first() {
                assert(a.drop_first().len() == b.drop_first().len());
                assert(a.len() == b.len());
                assert forall|i: int| 0 <= i < a.len() implies a[i] == b[i] by {
                    if i > 0 {
                        assert(a[i] == a.drop_first()[i - 1]);
                        assert(b[i] == b.drop_first()[i - 1]);
                    }
                }
                assert(a =~= b);
            }
        }
    } else if a.len() == 0 && b.len() == 0 {
        assert(a =~= b);
    }
}

pub proof fn lemma_lex_lt_asymmetric(a: Seq<char>, b: Seq<char>)
    requires
        lex_lt(a, b),
    ensures
        !lex_lt(b, a),
{
    if lex_lt(b, a) {
        lemma_lex_lt_transitive(a, b, a);
        lemma_lex_lt_irreflexive(a);
    }
}

/// Whether `a` sorts strictly before `b`.
pub fn str_lt(a: &str, b: &str) -> (r: bool)
    ensures
        r == lex_lt(a@, b@),
{
    let n = a.unicode_len();
    let m = b.unicode_len();
    let mut i: usize = 0;
    assert(a@.skip(0) =~= a@ && b@.skip(0) =~= b@);
    while i < n && i < m
        invariant
            n == a@.len(),
            m == b@.len(),
            i <= n,
            i <= m,
            lex_lt(a@, b@) == lex_lt(a@.skip(i as int), b@.skip(i as int)),
        decreases n - i,
    {
        let x = a.get_char(i);
        let y = b.get_char(i);
        assert(a@.skip(i as int)[0] == x && b@.skip(i as int)[0] == y);
        if (x as u32) < (y as u32) {
            return true;
        }
        if x != y {
            return false;
        }
        assert(a@.skip(i as int).drop_first() =~= a@.skip(i + 1));
        assert(b@.skip(i as int).drop_first() =~= b@.skip(i + 1));
        i = i + 1;
    }
    assert(a@.skip(i as int).len() == n - i);
    i == n && i < m
}

/// Sorted by name, in non-decreasing order.
pub open spec fn sorted_by_name(s: Seq<EncoderModel>) -> bool {
    forall|i: int, j: int| 0 <= i < j < s.len() ==> !lex_lt(#[trigger] s[j].name, #[trigger] s[i].name)
}

/// The entries whose name is `k`, in order.
pub open spec fn with_name(s: Seq<EncoderModel>, k: Seq<char>) -> Seq<EncoderModel>
    decreases s.len(),
{
    if s.len() == 0 {
        s
    } else {
        let r = with_name(s.drop_last(), k);
        if s.last().name == k {
            r.push(s.last())
        } else {
            r
        }
    }
}

/// `r` is `s` sorted by name, keeping the order of entries with equal names.
pub open spec fn stably_sorted_by_name(s: Seq<EncoderModel>, r: Seq<EncoderModel>) -> bool {
    &&& sorted_by_name(r)
    &&& forall|k: Seq<char>| #[trigger] with_name(r, k) == with_name(s, k)
}

pub proof fn lemma_with_name_add(a: Seq<EncoderModel>, b: Seq<EncoderModel>, k: Seq<char>)
    ensures
        with_name(a + b, k) == with_name(a, k) + with_name(b, k),
    decreases b.len(),
{
    if b.len() == 0 {
        assert(a + b =~= a);
        assert(with_name(a, k) + with_name(b, k) =~= with_name(a, k));
    } else {
        lemma_with_name_add(a, b.drop_last(), k);
        assert((a + b).drop_last() =~= a + b.drop_last());
        assert((a + b).last() == b.last());
        if b.last().name == k {
            assert(with_name(a + b, k) =~= with_name(a, k) + with_name(b, k));
        } else {
            assert(with_name(a + b, k) =~= with_name(a, k) + with_name(b, k));
        }
    }
}

pub proof fn lemma_with_name_none(s: Seq<EncoderModel>, k: Seq<char>)
    requires
        forall|i: int| 0 <= i < s.len() ==> #[trigger] s[i].name != k,
    ensures
        with_name(s, k) == Seq::<EncoderModel>::empty(),
    decreases s.len(),
{
    if s.len() > 0 {
        assert forall|i: int| 0 <= i < s.drop_last().len() implies #[trigger] s.drop_last()[i].name != k by {
            assert(s.drop_last()[i] == s[i]);
        }
        lemma_with_name_none(s.drop_last(), k);
        assert(s.last() == s[s.len() - 1]);
    }
}

proof fn lemma_with_name_single(x: EncoderModel, k: Seq<char>)
    ensures
        with_name(seq![x], k) == (if x.name == k { seq![x] } else { Seq::<EncoderModel>::empty() }),
{
    assert(seq![x].drop_last() =~= Seq::<EncoderModel>::empty());
    assert(seq![x].last() == x);
    assert(with_name(Seq::<EncoderModel>::empty(), k) == Seq::<EncoderModel>::empty());
    if x.name == k {
        assert(with_name(seq![x], k) =~= seq![x]);
    }
}

/// Inserting `x` after every entry whose name does not sort after it keeps
/// the sequence sorted and stable.
proof fn lemma_insert_stable(r: Seq<EncoderModel>, p: int, x: EncoderModel, s: Seq<EncoderModel>)
    requires
        0 <= p <= r.len(),
        stably_sorted_by_name(s, r),
        forall|j: int| 0 <= j < p ==> !lex_lt(x.name, #[trigger] r[j].name),
        p < r.len() ==> lex_lt(x.name, r[p].name),
    ensures
        stably_sorted_by_name(s.push(x), r.insert(p, x)),
{
    let r2 = r.insert(p, x);
    assert forall|i: int, j: int| 0 <= i < j < r2.len() implies !lex_lt(#[trigger] r2[j].name, #[trigger] r2[i].name) by {
        if j < p {
            assert(r2[i] == r[i] && r2[j] == r[j]);
        } else if j == p {
            assert(r2[i] == r[i]);
            assert(r2[j] == x);
        } else if i == p {
            assert(r2[j] == r[j - 1]);
            assert(r2[i] == x);
            if lex_lt(r[j - 1].name, x.name) {
                if j - 1 > p {
                    assert(!lex_lt(r[j - 1].name, r[p].name));
                    lemma_lex_lt_transitive(r[j - 1].name, x.name, r[p].name);
                } else {
                    lemma_lex_lt_asymmetric(x.name, r[p].name);
                }
            }
        } else if i > p {
            assert(r2[i] == r[i - 1] && r2[j] == r[j - 1]);
        } else {
            assert(r2[i] == r[i] && r2[j] == r[j - 1]);
        }
    }
    assert forall|k: Seq<char>| #[trigger] with_name(r2, k) == with_name(s.push(x), k) by {
        assert(r2 =~= r.take(p) + seq![x] + r.skip(p));
        assert(r =~= r.take(p) + r.skip(p));
        assert(s.push(x) =~= s + seq![x]);
        lemma_with_name_add(r.take(p) + seq![x], r.skip(p), k);
        lemma_with_name_add(r.take(p), seq![x], k);
        lemma_with_name_add(r.take(p), r.skip(p), k);
        lemma_with_name_add(s, seq![x], k);
        lemma_with_name_single(x, k);
        if x.name == k {
            assert forall|i: int| 0 <= i < r.skip(p).len() implies #[trigger] r.skip(p)[i].name != k by {
                assert(r.skip(p)[i] == r[p + i]);
                if i > 0 {
                    assert(!lex_lt(r[p + i].name, r[p].name));
                    if r[p + i].name == x.name {
                        lemma_lex_lt_asymmetric(x.name, r[p].name);
                    }
                } else {
                    lemma_lex_lt_irreflexive(x.name);
                }
            }
            lemma_with_name_none(r.skip(p), k);
            assert(with_name(r2, k) =~= with_name(r.take(p), k) + seq![x]);
            assert(with_name(r, k) =~= with_name(r.take(p), k));
        } else {
            assert(with_name(r2, k) =~= with_name(r, k));
        }
    }
}

/// The descriptors sorted by name; entries with equal names keep their order.
pub fn sort_by_name(encoders: &Vec<VideoEncoderDescriptor>) -> (r: Vec<VideoEncoderDescriptor>)
    ensures
        stably_sorted_by_name(encoder_models(encoders@), encoder_models(r@)),
{
    let mut r: Vec<VideoEncoderDescriptor> = Vec::new();
    let n = encoders.len();
    proof {
        assert(encoder_models(r@) =~= Seq::<EncoderModel>::empty());
        assert(encoder_models(encoders@).take(0) =~= Seq::<EncoderModel>::empty());
    }
    for i in 0..n
        invariant
            n == encoders@.len(),
            stably_sorted_by_name(encoder_models(encoders@).take(i as int), encoder_models(r@)),
    {
        let x = encoders[i].clone();
        let len = r.len();
        let mut p: usize = 0;
        while p < len && !str_lt(x.name.as_str(), r[p].name.as_str())
            invariant
                len == r@.len(),
                p <= len,
                forall|j: int| 0 <= j < p ==> !lex_lt(x@.name, #[trigger] encoder_models(r@)[j].name),
            decreases len - p,
        {
            assert(encoder_models(r@)[p as int] == r@[p as int]@);
            p = p + 1;
        }
        proof {
            if p < len {
                assert(encoder_models(r@)[p as int] == r@[p as int]@);
            }
            assert(encoders@[i as int]@ == x@);
            lemma_insert_stable(encoder_models(r@), p as int, x@, encoder_models(encoders@).take(i as int));
            assert(encoder_models(encoders@).take(i + 1) =~= encoder_models(encoders@).take(i as int).push(x@));
        }
        let ghost before = r@;
        r.insert(p, x);
        assert(encoder_models(r@) =~= encoder_models(before).insert(p as int, x@));
    }
    assert(encoder_models(encoders@).take(n as int) =~= encoder_models(encoders@));
    r
}


/// Direction of a pad template.
#[derive(Clone, Copy, PartialEq, Eq, Structural, Debug)]
pub enum PadDirection {
    Src,
    Sink,
    Unknown,
}

/// One structure of a pad template's caps, with the caps features it carries.
pub struct CapsStructureInfo {
    /// Media type, such as `video/x-h264`.
    pub name: String,
    /// Caps features, such as `memory:D3D11Memory`.
    pub features: Vec<String>,
}

/// A static pad template of an element factory.
pub struct PadTemplateInfo {
    pub direction: PadDirection,
    pub caps: Vec<CapsStructureInfo>,
}

/// What encoder selection reads of a video encoder element factory.
pub struct EncoderFactoryInfo {
    /// Factory name, used as the encoder id.
    pub name: String,
    pub longname: String,
    pub description: String,
    /// Factory class string, such as `Codec/Encoder/Video/Hardware`.
    pub klass: String,
    /// Whether the factory is registered with the hardware type flag.
    pub hardware_type: bool,
    /// Whether an element of this factory could be created.
    pub can_build: bool,
    pub pad_templates: Vec<PadTemplateInfo>,
}

/// Whether some source pad template offers `video/x-h264`.
pub open spec fn supports_h264_spec(f: EncoderFactoryInfo) -> bool {
    exists|t: int, c: int|
        0 <= t < f.pad_templates@.len() && f.pad_templates@[t].direction == PadDirection::Src
            && 0 <= c < f.pad_templates@[t].caps@.len()
            && #[trigger] f.pad_templates@[t].caps@[c].name@ == "video/x-h264"@
}

/// Whether some source pad template offers H.264.
pub fn supports_h264(f: &EncoderFactoryInfo) -> (r: bool)
    ensures
        r == supports_h264_spec(*f),
{
    let target = "video/x-h264";
    let nt = f.pad_templates.len();
    for t in 0..nt
        invariant
            nt == f.pad_templates@.len(),
            target@ == "video/x-h264"@,
            forall|t2: int, c: int|
                0 <= t2 < t && f.pad_templates@[t2].direction == PadDirection::Src
                    && 0 <= c < f.pad_templates@[t2].caps@.len()
                    ==> #[trigger] f.pad_templates@[t2].caps@[c].name@ != "video/x-h264"@,
    {
        let template = &f.pad_templates[t];
        if template.direction == PadDirection::Src {
            let nc = template.caps.len();
            for c in 0..nc
                invariant
                    nc == template.caps@.len(),
                    t < nt,
                    nt == f.pad_templates@.len(),
                    target@ == "video/x-h264"@,
                    template == f.pad_templates@[t as int],
                    template.direction == PadDirection::Src,
                    forall|c2: int| 0 <= c2 < c ==> #[trigger] template.caps@[c2].name@ != "video/x-h264"@,
            {
                if str_eq(template.caps[c].name.as_str(), target) {
                    assert(f.pad_templates@[t as int].caps@[c as int].name@ == "video/x-h264"@);
                    return true;
                }
            }
        }
    }
    false
}

/// Whether a feature list holds `feature`.
pub open spec fn has_feature(fs: Seq<String>, feature: Seq<char>) -> bool {
    exists|i: int| 0 <= i < fs.len() && #[trigger] fs[i]@ == feature
}

fn features_contain(fs: &Vec<String>, feature: &str) -> (r: bool)
    ensures
        r == has_feature(fs@, feature@),
{
    let n = fs.len();
    for i in 0..n
        invariant
            n == fs@.len(),
            forall|j: int| 0 <= j < i ==> #[trigger] fs@[j]@ != feature@,
    {
        if str_eq(fs[i].as_str(), feature) {
            return true;
        }
    }
    false
}

/// The memory type named by the first caps structure that asks for one; for
/// each structure, D3D12 memory is checked before D3D11 memory.
pub open spec fn memory_of_structures(cs: Seq<CapsStructureInfo>) -> Option<Seq<char>>
    decreases cs.len(),
{
    if cs.len() == 0 {
        None
    } else if has_feature(cs[0].features@, "memory:D3D12Memory"@) {
        Some("D3D12Memory"@)
    } else if has_feature(cs[0].features@, "memory:D3D11Memory"@) {
        Some("D3D11Memory"@)
    } else {
        memory_of_structures(cs.drop_first())
    }
}

/// The memory type asked for by the first sink pad template that asks for one.
pub open spec fn memory_of_templates(ts: Seq<PadTemplateInfo>) -> Option<Seq<char>>
    decreases ts.len(),
{
    if ts.len() == 0 {
        None
    } else if ts[0].direction == PadDirection::Sink && memory_of_structures(ts[0].caps@) is Some {
        memory_of_structures(ts[0].caps@)
    } else {
        memory_of_templates(ts.drop_first())
    }
}

/// The memory type the encoder's input must live in: what its sink pads ask
/// for, else D3D11 memory for `nvd3d11h264enc`, else none.
pub open spec fn required_memory_spec(f: EncoderFactoryInfo) -> Option<Seq<char>> {
    match memory_of_templates(f.pad_templates@) {
        Some(m) => Some(m),
        None => if f.name@ == "nvd3d11h264enc"@ { Some("D3D11Memory"@) } else { None },
    }
}

fn memory_in_structures(cs: &Vec<CapsStructureInfo>) -> (r: Option<String>)
    ensures
        opt_view(r) == memory_of_structures(cs@),
{
    let n = cs.len();
    let mut i: usize = 0;
    assert(cs@.skip(0) =~= cs@);
    while i < n
        invariant
            n == cs@.len(),
            i <= n,
            memory_of_structures(cs@) == memory_of_structures(cs@.skip(i as int)),
        decreases n - i,
    {
        assert(cs@.skip(i as int)[0] == cs@[i as int]);
        if features_contain(&cs[i].features, "memory:D3D12Memory") {
            return Some(String::from_str("D3D12Memory"));
        }
        if features_contain(&cs[i].features, "memory:D3D11Memory") {
            return Some(String::from_str("D3D11Memory"));
        }
        assert(cs@.skip(i as int).drop_first() =~= cs@.skip(i + 1));
        i = i + 1;
    }
    assert(cs@.skip(n as int) =~= Seq::<CapsStructureInfo>::empty());
    None
}

/// The memory type the encoder's input must live in.
pub fn required_memory_type(f: &EncoderFactoryInfo) -> (r: Option<String>)
    ensures
        opt_view(r) == required_memory_spec(*f),
{
    let ts = &f.pad_templates;
    let n = ts.len();
    let mut i: usize = 0;
    assert(ts@.skip(0) =~= ts@);
    while i < n
        invariant
            n == ts@.len(),
            ts@ == f.pad_templates@,
            i <= n,
            memory_of_templates(ts@) == memory_of_templates(ts@.skip(i as int)),
        decreases n - i,
    {
        assert(ts@.skip(i as int)[0] == ts@[i as int]);
        if ts[i].direction == PadDirection::Sink {
            let m = memory_in_structures(&ts[i].caps);
            if m.is_some() {
                assert(memory_of_templates(ts@.skip(i as int)) == memory_of_structures(ts@[i as int].caps@));
                assert(opt_view(m) == memory_of_templates(f.pad_templates@));
                assert(opt_view(m) is Some);
                return m;
            }
        }
        assert(ts@.skip(i as int).drop_first() =~= ts@.skip(i + 1));
        i = i + 1;
    }
    assert(ts@.skip(n as int) =~= Seq::<PadTemplateInfo>::empty());
    if str_eq(f.name.as_str(), "nvd3d11h264enc") {
        return Some(String::from_str("D3D11Memory"));
    }
    None
}

/// Whether a factory is offered: it encodes H.264, an element can be made,
/// and it does not need D3D12 memory.
pub open spec fn offered(f: EncoderFactoryInfo) -> bool {
    supports_h264_spec(f) && f.can_build && required_memory_spec(f) != Some("D3D12Memory"@)
}

/// The descriptor made for an offered factory.
pub open spec fn describe(f: EncoderFactoryInfo) -> EncoderModel {
    EncoderModel {
        id: f.name@,
        name: f.longname@,
        description: f.description@,
        is_hardware: f.hardware_type || has_substring(f.klass@, "Hardware"@),
        required_memory: required_memory_spec(f),
    }
}

/// The descriptors of the offered factories, in factory order.
pub open spec fn offered_encoders(fs: Seq<EncoderFactoryInfo>) -> Seq<EncoderModel>
    decreases fs.len(),
{
    if fs.len() == 0 {
        Seq::empty()
    } else {
        let rest = offered_encoders(fs.drop_last());
        if offered(fs.last()) {
            rest.push(describe(fs.last()))
        } else {
            rest
        }
    }
}

/// The H.264 encoders that can be offered, sorted by name.
pub fn select_video_encoders(factories: &Vec<EncoderFactoryInfo>) -> (r: Vec<VideoEncoderDescriptor>)
    ensures
        stably_sorted_by_name(offered_encoders(factories@), encoder_models(r@)),
{
    let mut found: Vec<VideoEncoderDescriptor> = Vec::new();
    let n = factories.len();
    assert(encoder_models(found@) =~= offered_encoders(factories@.take(0)));
    for i in 0..n
        invariant
            n == factories@.len(),
            encoder_models(found@) == offered_encoders(factories@.take(i as int)),
    {
        let f = &factories[i];
        let ghost before = found@;
        assert(factories@.take(i + 1).drop_last() =~= factories@.take(i as int));
        assert(factories@.take(i + 1).last() == *f);
        if supports_h264(f) && f.can_build {
            let required_memory = required_memory_type(f);
            let is_d3d12 = match &required_memory {
                Some(m) => str_eq(m.as_str(), "D3D12Memory"),
                None => false,
            };
            if !is_d3d12 {
                let is_hardware = f.hardware_type || str_contains(f.klass.as_str(), "Hardware");
                found.push(VideoEncoderDescriptor {
                    id: f.name.clone(),
                    name: f.longname.clone(),
                    description: f.description.clone(),
                    is_hardware,
                    required_memory,
                });
                assert(encoder_models(found@) =~= encoder_models(before).push(describe(*f)));
            }
        }
    }
    assert(factories@.take(n as int) =~= factories@);
    sort_by_name(&found)
}


/// An entry is among those named like it exactly when it is in the sequence.
pub proof fn lemma_with_name_contains(s: Seq<EncoderModel>, x: EncoderModel)
    ensures
        s.contains(x) <==> with_name(s, x.name).contains(x),
    decreases s.len(),
{
    if s.len() > 0 {
        lemma_with_name_contains(s.drop_last(), x);
        let r0 = with_name(s.drop_last(), x.name);
        if s.contains(x) {
            let i = choose|i: int| 0 <= i < s.len() && s[i] == x;
            if i < s.len() - 1 {
                assert(s.drop_last()[i] == x);
                let j = choose|j: int| 0 <= j < r0.len() && r0[j] == x;
                assert(with_name(s, x.name)[j] == x);
            } else {
                assert(with_name(s, x.name).last() == x);
            }
        }
        if with_name(s, x.name).contains(x) {
            let j = choose|j: int| 0 <= j < with_name(s, x.name).len() && with_name(s, x.name)[j] == x;
            if j < r0.len() {
                assert(r0[j] == x);
                let i = choose|i: int| 0 <= i < s.drop_last().len() && s.drop_last()[i] == x;
                assert(s[i] == x);
            } else {
                assert(s[s.len() - 1] == x);
            }
        }
    }
}

/// Every offered encoder comes from an H.264 factory that could be built and
/// does not need D3D12 memory.
pub proof fn lemma_offered_members(fs: Seq<EncoderFactoryInfo>, x: EncoderModel)
    requires
        offered_encoders(fs).contains(x),
    ensures
        exists|j: int| 0 <= j < fs.len() && offered(#[trigger] fs[j]) && describe(fs[j]) == x,
    decreases fs.len(),
{
    let rest = offered_encoders(fs.drop_last());
    if rest.contains(x) {
        lemma_offered_members(fs.drop_last(), x);
        let j = choose|j: int| 0 <= j < fs.drop_last().len() && offered(#[trigger] fs.drop_last()[j]) && describe(fs.drop_last()[j]) == x;
        assert(fs[j] == fs.drop_last()[j]);
    } else {
        let k = choose|k: int| 0 <= k < offered_encoders(fs).len() && offered_encoders(fs)[k] == x;
        assert(k == rest.len());
        assert(fs[fs.len() - 1] == fs.last());
    }
}

/// Law: the encoder list offers only H.264 encoders that could be built and do
/// not need D3D12 memory, each described from its factory, sorted by name; and
/// every such factory is offered.
pub proof fn law_encoder_list_is_usable_and_sorted(factories: Seq<EncoderFactoryInfo>, listed: Seq<EncoderModel>)
    requires
        stably_sorted_by_name(offered_encoders(factories), listed),
    ensures
        sorted_by_name(listed),
        forall|i: int| 0 <= i < listed.len() ==> exists|j: int| 0 <= j < factories.len()
            && offered(#[trigger] factories[j]) && describe(factories[j]) == #[trigger] listed[i],
        forall|i: int| 0 <= i < listed.len() ==> #[trigger] listed[i].required_memory != Some("D3D12Memory"@),
        forall|j: int| 0 <= j < factories.len() && offered(#[trigger] factories[j]) ==> listed.contains(describe(factories[j])),
{
    assert forall|i: int| 0 <= i < listed.len() implies exists|j: int| 0 <= j < factories.len()
        && offered(#[trigger] factories[j]) && describe(factories[j]) == #[trigger] listed[i] by {
        let x = listed[i];
        lemma_with_name_contains(listed, x);
        lemma_with_name_contains(offered_encoders(factories), x);
        assert(with_name(listed, x.name) == with_name(offered_encoders(factories), x.name));
        lemma_offered_members(factories, x);
    }
    assert forall|i: int| 0 <= i < listed.len() implies #[trigger] listed[i].required_memory != Some("D3D12Memory"@) by {
        let x = listed[i];
        lemma_with_name_contains(listed, x);
        lemma_with_name_contains(offered_encoders(factories), x);
        assert(with_name(listed, x.name) == with_name(offered_encoders(factories), x.name));
        lemma_offered_members(factories, x);
    }
    assert forall|j: int| 0 <= j < factories.len() && offered(#[trigger] factories[j]) implies listed.contains(describe(factories[j])) by {
        let x = describe(factories[j]);
        lemma_offered_contains(factories, j);
        lemma_with_name_contains(listed, x);
        lemma_with_name_contains(offered_encoders(factories), x);
        assert(with_name(listed, x.name) == with_name(offered_encoders(factories), x.name));
    }
}

/// Every offered factory's descriptor is in the offered list.
pub proof fn lemma_offered_contains(fs: Seq<EncoderFactoryInfo>, j: int)
    requires
        0 <= j < fs.len(),
        offered(fs[j]),
    ensures
        offered_encoders(fs).contains(describe(fs[j])),
    decreases fs.len(),
{
    if j < fs.len() - 1 {
        lemma_offered_contains(fs.drop_last(), j);
        assert(fs.drop_last()[j] == fs[j]);
        let r0 = offered_encoders(fs.drop_last());
        let k = choose|k: int| 0 <= k < r0.len() && r0[k] == describe(fs[j]);
        assert(offered_encoders(fs)[k] == r0[k]);
    } else {
        assert(fs.last() == fs[j]);
        assert(offered_encoders(fs).last() == describe(fs[j]));
    }
}

} // verus!
