//! Software versions.
//!
//! A version is a handle: a number that orders the versions and a label
//! that tells apart builds of the same number.  What binary stands behind a
//! handle is the caller's business.

use vstd::prelude::*;
use vstd::string::*;

verus! {

/// A software version that a node can run.
#[derive(Clone, Debug, PartialEq, Eq, Hash, PartialOrd, Ord)]
pub struct Version {
    pub number: usize,
    pub label: String,
}

/// Whether place `i` settles that text `a` comes before text `b`: the two
/// agree up to there, and there `a` ends or has the smaller character.
pub open spec fn settles_before(a: Seq<char>, b: Seq<char>, i: int) -> bool {
    &&& 0 <= i <= a.len()
    &&& i < b.len()
    &&& a.subrange(0, i) == b.subrange(0, i)
    &&& i < a.len() ==> (a[i] as u32) < (b[i] as u32)
}

/// Whether text `a` comes strictly before text `b` in dictionary order,
/// character by character.
pub open spec fn text_before(a: Seq<char>, b: Seq<char>) -> bool {
    exists|i: int| settles_before(a, b, i)
}

/// Whether two handles name the same version.
pub open spec fn same_version(a: Version, b: Version) -> bool {
    a.number == b.number && a.label@ == b.label@
}

/// Whether version `a` is older than version `b`: by number, and among
/// versions of one number by label.
pub open spec fn version_before(a: Version, b: Version) -> bool {
    a.number < b.number || (a.number == b.number && text_before(a.label@, b.label@))
}

/// Whether `versions` holds a handle of version `v`.
pub open spec fn knows_version(versions: Seq<Version>, v: Version) -> bool {
    exists|i: int| 0 <= i < versions.len() && same_version(#[trigger] versions[i], v)
}

/// Dictionary order on texts, decided.
pub fn text_precedes(a: &str, b: &str) -> (yes: bool)
    ensures
        yes == text_before(a@, b@),
{
    let alen: usize = a.unicode_len();
    let blen: usize = b.unicode_len();
    let mut i: usize = 0;
    while i < alen && i < blen
        invariant
            alen == a@.len(),
            blen == b@.len(),
            i <= alen,
            i <= blen,
            a@.subrange(0, i as int) == b@.subrange(0, i as int),
        decreases alen - i,
    {
        let x: char = a.get_char(i);
        let y: char = b.get_char(i);
        if x != y {
            let yes: bool = (x as u32) < (y as u32);
            proof {
                lemma_first_difference(a@, b@, i as int);
            }
            return yes;
        }
        assert(a@.subrange(0, i + 1) =~= a@.subrange(0, i as int).push(x));
        assert(b@.subrange(0, i + 1) =~= b@.subrange(0, i as int).push(y));
        i = i + 1;
    }
    proof {
        lemma_one_is_prefix(a@, b@, i as int);
    }
    i < blen
}

/// Texts that agree up to place `i` have the same character at every place
/// before it.
proof fn lemma_agree_at(a: Seq<char>, b: Seq<char>, i: int, j: int)
    requires
        0 <= j < i <= a.len(),
        i <= b.len(),
        a.subrange(0, i) == b.subrange(0, i),
    ensures
        a[j] == b[j],
{
    assert(a.subrange(0, i)[j] == a[j]);
    assert(b.subrange(0, i)[j] == b[j]);
}

/// Texts that first differ at place `i` are ordered by their characters there.
proof fn lemma_first_difference(a: Seq<char>, b: Seq<char>, i: int)
    requires
        0 <= i < a.len(),
        i < b.len(),
        a.subrange(0, i) == b.subrange(0, i),
        a[i] != b[i],
    ensures
        text_before(a, b) == ((a[i] as u32) < (b[i] as u32)),
{
    if (a[i] as u32) < (b[i] as u32) {
        assert(settles_before(a, b, i));
    }
    if text_before(a, b) {
        let j = choose|j: int| settles_before(a, b, j);
        if j > i {
            lemma_agree_at(a, b, j, i);
        } else if j < i {
            lemma_agree_at(a, b, i, j);
        }
    }
}

/// Where one text is the beginning of the other, the shorter comes first.
proof fn lemma_one_is_prefix(a: Seq<char>, b: Seq<char>, i: int)
    requires
        0 <= i <= a.len(),
        i <= b.len(),
        i == a.len() || i == b.len(),
        a.subrange(0, i) == b.subrange(0, i),
    ensures
        text_before(a, b) == (i < b.len()),
{
    if i < b.len() {
        assert(settles_before(a, b, i));
    }
    if text_before(a, b) {
        let j = choose|j: int| settles_before(a, b, j);
        if j < i {
            lemma_agree_at(a, b, i, j);
        }
    }
}

impl Version {
    /// A handle for version `number` with the given label.
    pub fn new(number: usize, label: &str) -> (v: Version)
        ensures
            v.number == number,
            v.label@ == label@,
    {
        Version { number, label: String::from_str(label) }
    }

    /// A second handle of the same version.
    pub fn duplicate(&self) -> (v: Version)
        ensures
            v == *self,
    {
        Version { number: self.number, label: self.label.clone() }
    }

    /// Whether `other` names the same version.
    pub fn same_as(&self, other: &Version) -> (yes: bool)
        ensures
            yes == same_version(*self, *other),
    {
        self.number == other.number && self.label == other.label
    }

    /// Whether this version is older than `other`.
    pub fn precedes(&self, other: &Version) -> (yes: bool)
        ensures
            yes == version_before(*self, *other),
    {
        if self.number < other.number {
            true
        } else if self.number == other.number {
            text_precedes(self.label.as_str(), other.label.as_str())
        } else {
            false
        }
    }
}

/// Whether `versions` holds a handle of `version`.
pub fn is_known(versions: &Vec<Version>, version: &Version) -> (yes: bool)
    ensures
        yes == knows_version(versions@, *version),
{
    let mut i: usize = 0;
    while i < versions.len()
        invariant
            i <= versions.len(),
            forall|j: int| 0 <= j < i ==> !same_version(#[trigger] versions@[j], *version),
        decreases versions.len() - i,
    {
        if versions[i].same_as(version) {
            return true;
        }
        i = i + 1;
    }
    false
}

/// The place of the newest version in `versions`: one that no other is
/// newer than.  There is none in an empty list.
pub fn latest(versions: &Vec<Version>) -> (place: Option<usize>)
    ensures
        place is None <==> versions@.len() == 0,
        place matches Some(i) ==> i < versions@.len() && forall|j: int|
            0 <= j < versions@.len() ==> !version_before(versions@[i as int], #[trigger] versions@[j]),
{
    if versions.len() == 0 {
        return None;
    }
    let mut best: usize = 0;
    let mut i: usize = 1;
    while i < versions.len()
        invariant
            1 <= i <= versions.len(),
            best < i,
            forall|j: int| 0 <= j < i ==> !version_before(versions@[best as int], #[trigger] versions@[j]),
        decreases versions.len() - i,
    {
        if versions[best].precedes(&versions[i]) {
            proof {
                assert forall|j: int| 0 <= j < i + 1 implies !version_before(
                    versions@[i as int],
                    #[trigger] versions@[j],
                ) by {
                    if version_before(versions@[i as int], versions@[j]) {
                        lemma_version_order_transitive(
                            versions@[best as int],
                            versions@[i as int],
                            versions@[j],
                        );
                    }
                }
            }
            best = i;
        }
        i = i + 1;
    }
    Some(best)
}

/// Dictionary order is transitive.
pub proof fn lemma_text_order_transitive(a: Seq<char>, b: Seq<char>, c: Seq<char>)
    requires
        text_before(a, b),
        text_before(b, c),
    ensures
        text_before(a, c),
{
    let i = choose|i: int| settles_before(a, b, i);
    let j = choose|j: int| settles_before(b, c, j);
    let k = if i <= j {
        i
    } else {
        j
    };
    assert(a.subrange(0, k) =~= c.subrange(0, k)) by {
        assert forall|x: int| 0 <= x < k implies a[x] == c[x] by {
            lemma_agree_at(a, b, i, x);
            lemma_agree_at(b, c, j, x);
        }
    }
    if k < a.len() {
        if i < j {
            lemma_agree_at(b, c, j, i);
        } else if j < i {
            lemma_agree_at(a, b, i, j);
        }
    }
    assert(settles_before(a, c, k));
}

/// The order of versions is transitive.
pub proof fn lemma_version_order_transitive(a: Version, b: Version, c: Version)
    requires
        version_before(a, b),
        version_before(b, c),
    ensures
        version_before(a, c),
{
    if a.number == b.number && b.number == c.number {
        lemma_text_order_transitive(a.label@, b.label@, c.label@);
    }
}

} // verus!
