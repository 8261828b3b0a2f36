//! The list of font families offered for the interface: one entry per family
//! name (compared without regard to case), marked monospaced when any face
//! of the family is, in the order of the lower-cased names.
#![verifier::loop_isolation(false)]

use crate::model::SystemFont;
use crate::text::{chars_of, contains_char, owned, spec_contains_char, spec_trim, spec_utf8_len, string_of, trim, utf8_len_exceeds};
use vstd::prelude::*;

verus! {

/// The lower-case form of a string under Unicode's case mapping.
pub uninterp spec fn spec_to_lowercase(s: Seq<char>) -> Seq<char>;

/// Lower-cases a string.
///
/// Trusted: calls `str::to_lowercase`, whose result depends only on the
/// text; Unicode's mapping takes pages to state, so the contract names it.
#[verifier::external_body]
fn to_lowercase(s: &str) -> (r: String)
    ensures
        r@ == spec_to_lowercase(s@),
{
    s.to_lowercase()
}

/// The family name a face is listed under: trimmed, and refused when empty,
/// longer than 256 bytes, or holding a NUL character.
pub open spec fn spec_accepted_family(family: Seq<char>) -> Option<Seq<char>> {
    let t = spec_trim(family);
    if t.len() == 0 || spec_utf8_len(t) > 256 || spec_contains_char(t, '\0') {
        None
    } else {
        Some(t)
    }
}

/// The family name a face is listed under, if any.
pub fn accepted_font_family(family: &str) -> (r: Option<String>)
    ensures
        match r {
            Some(f) => spec_accepted_family(family@) == Some(f@),
            None => spec_accepted_family(family@) is None,
        },
{
    let t = trim(&chars_of(family));
    if t.len() == 0 || utf8_len_exceeds(&t, 256) || contains_char(&t, '\0') {
        None
    } else {
        Some(string_of(&t))
    }
}

/// Whether `a` comes before `b` in the order of their characters' code
/// points, which is also the order of their UTF-8 bytes.
pub open spec fn spec_text_lt(a: Seq<char>, b: Seq<char>) -> bool
    decreases a.len(),
{
    if a.len() == 0 {
        b.len() > 0
    } else if b.len() == 0 {
        false
    } else if a[0] != b[0] {
        a[0] < b[0]
    } else {
        spec_text_lt(a.drop_first(), b.drop_first())
    }
}

pub proof fn lemma_text_lt_irreflexive(a: Seq<char>)
    ensures
        !spec_text_lt(a, a),
    decreases a.len(),
{
    if a.len() > 0 {
        lemma_text_lt_irreflexive(a.drop_first());
    }
}

pub proof fn lemma_text_lt_transitive(a: Seq<char>, b: Seq<char>, c: Seq<char>)
    requires
        spec_text_lt(a, b),
        spec_text_lt(b, c),
    ensures
        spec_text_lt(a, c),
    decreases a.len(),
{
    if a.len() > 0 && b.len() > 0 && c.len() > 0 && a[0] == b[0] && b[0] == c[0] {
        lemma_text_lt_transitive(a.drop_first(), b.drop_first(), c.drop_first());
    }
}

pub proof fn lemma_text_lt_total(a: Seq<char>, b: Seq<char>)
    ensures
        spec_text_lt(a, b) || a == b || spec_text_lt(b, a),
    decreases a.len(),
{
    if a.len() == 0 && b.len() == 0 {
        assert(a =~= b);
    } else if a.len() > 0 && b.len() > 0 {
        if a[0] == b[0] {
            lemma_text_lt_total(a.drop_first(), b.drop_first());
            if a.drop_first() == b.drop_first() {
                assert(a.drop_first().len() == a.len() - 1);
                assert(b.drop_first().len() == b.len() - 1);
                assert(a.len() == b.len());
                assert(a =~= b) by {
                    assert forall|i: int| 0 <= i < a.len() implies a[i] == b[i] by {
                        if i > 0 {
                            assert(a[i] == a.drop_first()[i - 1]);
                            assert(b[i] == b.drop_first()[i - 1]);
                        }
                    }
                }
            }
        }
    }
}

pub(crate) fn text_lt(a: &[char], b: &[char]) -> (r: bool)
    ensures
        r == spec_text_lt(a@, b@),
{
    let mut i: usize = 0;
    assert(a@.skip(0) =~= a@);
    assert(b@.skip(0) =~= b@);
    while i < a.len() && i < b.len()
        invariant
            i <= a.len(),
            i <= b.len(),
            spec_text_lt(a@, b@) == spec_text_lt(a@.skip(i as int), b@.skip(i as int)),
        decreases a.len() - i,
    {
        assert(a@.skip(i as int)[0] == a@[i as int]);
        assert(b@.skip(i as int)[0] == b@[i as int]);
        if a[i] != b[i] {
            return a[i] < b[i];
        }
        assert(a@.skip(i as int).drop_first() == a@.skip(i as int + 1));
        assert(b@.skip(i as int).drop_first() == b@.skip(i as int + 1));
        i = i + 1;
    }
    assert(a@.skip(i as int).len() == a.len() - i);
    assert(b@.skip(i as int).len() == b.len() - i);
    i == a.len() && i < b.len()
}

/// The families collected so far, each under its lower-cased name, in
/// increasing order of those names.
pub struct SystemFontList {
    pub entries: Vec<(String, SystemFont)>,
}

impl SystemFontList {
    pub open spec fn keys(&self) -> Seq<Seq<char>> {
        self.entries@.map_values(|e: (String, SystemFont)| e.0@)
    }

    /// The names are in strictly increasing order, so no family is listed twice.
    pub open spec fn wf(&self) -> bool {
        forall|i: int, j: int| 0 <= i < j < self.entries@.len() ==> spec_text_lt(#[trigger] self.keys()[i], #[trigger] self.keys()[j])
    }

    /// An empty list.
    pub fn new() -> (r: SystemFontList)
        ensures
            r.wf(),
            r.entries@.len() == 0,
    {
        SystemFontList { entries: Vec::new() }
    }
}


/// The families after a face with first family name `family` (if it has
/// one) and monospace flag `monospaced` is added to `m`: its accepted name
/// is filed under its lower-cased form; a family seen before keeps its
/// first name and becomes monospaced when any of its faces is.
pub open spec fn spec_font_step(m: Map<Seq<char>, (Seq<char>, bool)>, family: Option<Seq<char>>, monospaced: bool) -> Map<Seq<char>, (Seq<char>, bool)> {
    match family {
        None => m,
        Some(f) => match spec_accepted_family(f) {
            None => m,
            Some(t) => {
                let k = spec_to_lowercase(t);
                if m.contains_key(k) {
                    m.insert(k, (m[k].0, m[k].1 || monospaced))
                } else {
                    m.insert(k, (t, monospaced))
                }
            },
        },
    }
}

/// The position of `k` among sorted keys.
pub open spec fn spec_index_of_key(keys: Seq<Seq<char>>, k: Seq<char>) -> int {
    choose|i: int| 0 <= i < keys.len() && keys[i] == k
}

impl SystemFontList {
    /// The families listed, by lower-cased name: the name shown and whether
    /// the family is monospaced.
    pub open spec fn view(&self) -> Map<Seq<char>, (Seq<char>, bool)> {
        Map::new(
            |k: Seq<char>| self.keys().contains(k),
            |k: Seq<char>| {
                let e = self.entries@[spec_index_of_key(self.keys(), k)].1;
                (e.family@, e.monospaced)
            },
        )
    }

    proof fn lemma_index_of_key(&self, i: int)
        requires
            self.wf(),
            0 <= i < self.entries@.len(),
        ensures
            spec_index_of_key(self.keys(), self.keys()[i]) == i,
    {
        let k = self.keys()[i];
        let j = spec_index_of_key(self.keys(), k);
        assert(0 <= j < self.keys().len() && self.keys()[j] == k);
        if j < i {
            lemma_text_lt_irreflexive(k);
        } else if j > i {
            lemma_text_lt_irreflexive(k);
        }
    }

    /// Adds a face: `family` is its first family name, if it has one.
    pub fn add_face(&mut self, family: Option<&str>, monospaced: bool)
        requires
            old(self).wf(),
        ensures
            final(self).wf(),
            final(self).view() == spec_font_step(old(self).view(), crate::vault_import::view_opt_str(family), monospaced),
    {
        let f = match family {
            None => return,
            Some(f) => f,
        };
        let t = match accepted_font_family(f) {
            None => return,
            Some(t) => t,
        };
        let key = to_lowercase(t.as_str());
        let kc = chars_of(key.as_str());
        let ghost before = *self;
        let mut i: usize = 0;
        while i < self.entries.len() && text_lt(&chars_of(self.entries[i].0.as_str()), &kc)
            invariant
                i <= self.entries@.len(),
                *self == before,
                forall|j: int| 0 <= j < i ==> spec_text_lt(#[trigger] self.keys()[j], kc@),
            decreases self.entries.len() - i,
        {
            i = i + 1;
        }
        if i < self.entries.len() && crate::text::chars_eq(&chars_of(self.entries[i].0.as_str()), &kc) {
            let old_font = &self.entries[i].1;
            let updated = SystemFont { family: owned(old_font.family.as_str()), monospaced: old_font.monospaced || monospaced };
            let entry = (owned(self.entries[i].0.as_str()), updated);
            self.entries.set(i, entry);
            proof {
                assert(self.keys() =~= before.keys());
                assert(before.keys()[i as int] == key@);
                assert(before.view().contains_key(key@));
                before.lemma_index_of_key(i as int);
                let step = spec_font_step(before.view(), crate::vault_import::view_opt_str(family), monospaced);
                assert forall|k: Seq<char>| self.view().contains_key(k) <==> step.contains_key(k) by {}
                assert forall|k: Seq<char>| #[trigger] self.view().contains_key(k) implies self.view()[k] == step[k] by {
                    let j = choose|j: int| 0 <= j < before.keys().len() && before.keys()[j] == k;
                    before.lemma_index_of_key(j);
                    self.lemma_index_of_key(j);
                }
                assert(self.view() =~= step);
            }
        } else {
            let ghost n = before.entries@.len();
            proof {
                if i < n {
                    lemma_text_lt_total(before.keys()[i as int], kc@);
                    assert(spec_text_lt(kc@, before.keys()[i as int]));
                }
                assert(!before.keys().contains(key@)) by {
                    if before.keys().contains(key@) {
                        let j = choose|j: int| 0 <= j < before.keys().len() && before.keys()[j] == key@;
                        if j < i {
                            lemma_text_lt_irreflexive(key@);
                        } else if j > i {
                            lemma_text_lt_transitive(kc@, before.keys()[i as int], before.keys()[j]);
                            lemma_text_lt_irreflexive(key@);
                        } else {
                            lemma_text_lt_irreflexive(key@);
                        }
                    }
                }
            }
            let font = SystemFont { family: t, monospaced };
            self.entries.insert(i, (key, font));
            proof {
                let nk = self.keys();
                let ok = before.keys();
                assert(nk =~= ok.insert(i as int, key@));
                assert forall|b: int| i < b < nk.len() implies spec_text_lt(kc@, #[trigger] ok[b - 1]) by {
                    if b - 1 > i {
                        lemma_text_lt_transitive(kc@, ok[i as int], ok[b - 1]);
                    }
                }
                assert forall|a: int, b: int| 0 <= a < b < nk.len() implies spec_text_lt(#[trigger] nk[a], #[trigger] nk[b]) by {
                    if b < i {
                        assert(nk[a] == ok[a] && nk[b] == ok[b]);
                    } else if b == i {
                        assert(nk[a] == ok[a]);
                    } else if a == i {
                        assert(nk[b] == ok[b - 1]);
                        assert(spec_text_lt(kc@, ok[b - 1]));
                    } else if a < i {
                        assert(nk[a] == ok[a] && nk[b] == ok[b - 1]);
                        assert(spec_text_lt(kc@, ok[b - 1]));
                        lemma_text_lt_transitive(ok[a], kc@, ok[b - 1]);
                    } else {
                        assert(nk[a] == ok[a - 1] && nk[b] == ok[b - 1]);
                    }
                }
                assert(self.wf());
                let step = spec_font_step(before.view(), crate::vault_import::view_opt_str(family), monospaced);
                assert forall|k: Seq<char>| self.view().contains_key(k) <==> step.contains_key(k) by {
                    if ok.contains(k) {
                        let j = choose|j: int| 0 <= j < ok.len() && ok[j] == k;
                        if j < i {
                            assert(nk[j] == k);
                        } else {
                            assert(nk[j + 1] == k);
                        }
                    }
                    if nk.contains(k) && k != key@ {
                        let j = choose|j: int| 0 <= j < nk.len() && nk[j] == k;
                        if j < i {
                            assert(ok[j] == k);
                        } else {
                            assert(ok[j - 1] == k);
                        }
                    }
                    assert(nk[i as int] == key@);
                }
                assert forall|k: Seq<char>| #[trigger] self.view().contains_key(k) implies self.view()[k] == step[k] by {
                    if k == key@ {
                        assert(nk[i as int] == key@);
                        self.lemma_index_of_key(i as int);
                    } else {
                        let j = choose|j: int| 0 <= j < ok.len() && ok[j] == k;
                        before.lemma_index_of_key(j);
                        if j < i {
                            assert(nk[j] == k);
                            self.lemma_index_of_key(j);
                        } else {
                            assert(nk[j + 1] == k);
                            self.lemma_index_of_key(j + 1);
                        }
                    }
                }
                assert(self.view() =~= step);
            }
        }
    }

    /// The families in increasing order of their lower-cased names.
    pub fn into_fonts(self) -> (r: Vec<SystemFont>)
        ensures
            r@.len() == self.entries@.len(),
            forall|i: int| 0 <= i < r@.len() ==> #[trigger] r@[i] == self.entries@[i].1,
    {
        let mut r: Vec<SystemFont> = Vec::new();
        let mut entries = self.entries;
        let ghost all = entries@;
        let mut rest: Vec<(String, SystemFont)> = Vec::new();
        while entries.len() > 0
            invariant
                entries@.len() + rest@.len() == all.len(),
                forall|i: int| 0 <= i < entries@.len() ==> entries@[i] == all[i],
                forall|i: int| 0 <= i < rest@.len() ==> rest@[i] == all[all.len() - 1 - i],
            decreases entries@.len(),
        {
            let e = entries.pop().unwrap();
            rest.push(e);
        }
        while rest.len() > 0
            invariant
                r@.len() + rest@.len() == all.len(),
                forall|i: int| 0 <= i < rest@.len() ==> rest@[i] == all[all.len() - 1 - i],
                forall|i: int| 0 <= i < r@.len() ==> #[trigger] r@[i] == all[i].1,
            decreases rest@.len(),
        {
            let e = rest.pop().unwrap();
            r.push(e.1);
        }
        r
    }
}


/// What the font database reports of one face: its first family name, if
/// any, and whether it is monospaced.
#[derive(Debug, Clone, PartialEq, Eq)]
pub struct FontFace {
    pub family: Option<String>,
    pub monospaced: bool,
}

/// The families after the first `n` faces.
pub open spec fn spec_font_fold(faces: Seq<FontFace>, n: int) -> Map<Seq<char>, (Seq<char>, bool)>
    decreases n,
{
    if n <= 0 {
        Map::empty()
    } else {
        spec_font_step(
            spec_font_fold(faces, n - 1),
            match faces[n - 1].family {
                Some(f) => Some(f@),
                None => None,
            },
            faces[n - 1].monospaced,
        )
    }
}

/// The font families to offer, from the faces installed on the computer:
/// one per lower-cased family name, shown under the first name met,
/// monospaced when any of its faces is, in increasing order of those names.
pub fn scan_system_fonts(faces: &[FontFace]) -> (r: Vec<SystemFont>)
    ensures
        exists|keys: Seq<Seq<char>>| {
            &&& keys.len() == r@.len()
            &&& forall|i: int, j: int| 0 <= i < j < keys.len() ==> spec_text_lt(#[trigger] keys[i], #[trigger] keys[j])
            &&& keys.to_set() == spec_font_fold(faces@, faces@.len() as int).dom()
            &&& forall|i: int| 0 <= i < keys.len() ==> spec_font_fold(faces@, faces@.len() as int)[#[trigger] keys[i]] == (r@[i].family@, r@[i].monospaced)
        },
{
    let mut list = SystemFontList::new();
    assert(list.view() =~= spec_font_fold(faces@, 0));
    let mut i: usize = 0;
    while i < faces.len()
        invariant
            i <= faces.len(),
            list.wf(),
            list.view() == spec_font_fold(faces@, i as int),
        decreases faces.len() - i,
    {
        let family = match &faces[i].family {
            Some(f) => Some(f.as_str()),
            None => None,
        };
        list.add_face(family, faces[i].monospaced);
        i = i + 1;
    }
    let ghost keys = list.keys();
    let ghost entries = list.entries@;
    let ghost m = list.view();
    proof {
        assert(keys.to_set() =~= m.dom());
        assert forall|j: int| 0 <= j < keys.len() implies m[#[trigger] keys[j]] == (entries[j].1.family@, entries[j].1.monospaced) by {
            list.lemma_index_of_key(j);
        }
    }
    let r = list.into_fonts();
    assert(forall|j: int| 0 <= j < keys.len() ==> m[#[trigger] keys[j]] == (r@[j].family@, r@[j].monospaced));
    r
}

} // verus!
