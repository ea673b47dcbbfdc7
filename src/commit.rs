//! The commit record exchanged between the ground station, the flock's
//! coordinator and the bounce units.
use vstd::prelude::*;

verus! {

/// Whether a commit endorses the payload or refuses to commit the slot.
#[derive(Clone, Copy, Debug, PartialEq, Eq, Structural)]
pub enum CommitType {
    Precommit,
    Noncommit,
}

impl CommitType {
    /// Decodes the wire value; anything but `1` (an absent field included) is a precommit.
    pub fn from_wire(v: i32) -> (t: CommitType)
        ensures
            t == (if v == 1 { CommitType::Noncommit } else { CommitType::Precommit }),
    {
        if v == 1 {
            CommitType::Noncommit
        } else {
            CommitType::Precommit
        }
    }

    /// The wire value: `0` for a precommit, `1` for a non-commit.
    pub fn to_wire(self) -> (v: i32)
        ensures
            v == (if self == CommitType::Noncommit { 1i32 } else { 0i32 }),
    {
        match self {
            CommitType::Precommit => 0,
            CommitType::Noncommit => 1,
        }
    }
}

/// A signed precommit or non-commit, or an aggregate of several.
#[derive(Clone, Debug, PartialEq, Eq)]
pub struct Commit {
    pub typ: CommitType,
    /// The slot the commit belongs to.
    pub i: u32,
    /// The last committed slot known to the sender.
    pub j: u32,
    pub msg: Vec<u8>,
    pub public_key: Vec<u8>,
    pub signature: Vec<u8>,
    /// Whether `public_key` and `signature` are aggregates.
    pub aggregated: bool,
    pub signer_id: u32,
}

/// The mathematical value of a [`Commit`].
pub struct CommitView {
    pub typ: CommitType,
    pub i: u32,
    pub j: u32,
    pub msg: Seq<u8>,
    pub public_key: Seq<u8>,
    pub signature: Seq<u8>,
    pub aggregated: bool,
    pub signer_id: u32,
}

impl View for Commit {
    type V = CommitView;

    open spec fn view(&self) -> CommitView {
        CommitView {
            typ: self.typ,
            i: self.i,
            j: self.j,
            msg: self.msg@,
            public_key: self.public_key@,
            signature: self.signature@,
            aggregated: self.aggregated,
            signer_id: self.signer_id,
        }
    }
}

/// The views of a sequence of commits.
pub open spec fn commit_views(s: Seq<Commit>) -> Seq<CommitView> {
    s.map_values(|c: Commit| c@)
}

/// A copy of a byte vector.
pub fn copy_bytes(v: &Vec<u8>) -> (r: Vec<u8>)
    ensures
        r@ == v@,
{
    let mut r: Vec<u8> = Vec::with_capacity(v.len());
    let mut k: usize = 0;
    while k < v.len()
        invariant
            k <= v@.len(),
            r@ == v@.subrange(0, k as int),
        decreases v@.len() - k,
    {
        r.push(v[k]);
        k = k + 1;
    }
    assert(r@ =~= v@);
    r
}

/// Whether two byte vectors hold the same bytes.
pub fn bytes_equal(a: &Vec<u8>, b: &Vec<u8>) -> (r: bool)
    ensures
        r == (a@ == b@),
{
    if a.len() != b.len() {
        return false;
    }
    let mut k: usize = 0;
    while k < a.len()
        invariant
            k <= a@.len(),
            a@.len() == b@.len(),
            forall|m: int| 0 <= m < k ==> a@[m] == b@[m],
        decreases a@.len() - k,
    {
        if a[k] != b[k] {
            return false;
        }
        k = k + 1;
    }
    assert(a@ =~= b@);
    true
}

impl Commit {
    /// The commit's type.
    pub fn typ(&self) -> (t: CommitType)
        ensures
            t == self.typ,
    {
        self.typ
    }

    /// A field-by-field copy of the commit.
    pub fn duplicate(&self) -> (r: Commit)
        ensures
            r@ == self@,
    {
        Commit {
            typ: self.typ,
            i: self.i,
            j: self.j,
            msg: copy_bytes(&self.msg),
            public_key: copy_bytes(&self.public_key),
            signature: copy_bytes(&self.signature),
            aggregated: self.aggregated,
            signer_id: self.signer_id,
        }
    }
}

/// The decimal digits of `n`, in ASCII.
pub open spec fn decimal(n: nat) -> Seq<u8>
    decreases n,
{
    if n < 10 {
        seq![(48 + n) as u8]
    } else {
        decimal(n / 10).push((48 + n % 10) as u8)
    }
}

/// The canonical message of a non-commit for the slots from `j + 1` to `i`:
/// `noncommit(<j + 1>,<i>)`.
pub open spec fn noncommit_text(j: u32, i: u32) -> Seq<u8> {
    // "noncommit("
    seq![110u8, 111, 110, 99, 111, 109, 109, 105, 116, 40] + decimal((j + 1) as nat)
    // ","
    + seq![44u8] + decimal(i as nat)
    // ")"
    + seq![41u8]
}

/// Appends the decimal digits of `n`.
fn push_decimal(out: &mut Vec<u8>, n: u64)
    ensures
        final(out)@ == old(out)@ + decimal(n as nat),
    decreases n,
{
    if n >= 10 {
        push_decimal(out, n / 10);
    }
    out.push((48 + n % 10) as u8);
    assert(final(out)@ =~= old(out)@ + decimal(n as nat));
}

/// The canonical message of a non-commit for the slots from `j + 1` to `i`.
pub fn noncommit_message(j: u32, i: u32) -> (m: Vec<u8>)
    ensures
        m@ == noncommit_text(j, i),
{
    let mut m: Vec<u8> = Vec::new();
    m.push(110);
    m.push(111);
    m.push(110);
    m.push(99);
    m.push(111);
    m.push(109);
    m.push(109);
    m.push(105);
    m.push(116);
    m.push(40);
    push_decimal(&mut m, j as u64 + 1);
    m.push(44);
    push_decimal(&mut m, i as u64);
    m.push(41);
    assert(m@ =~= noncommit_text(j, i));
    m
}

} // verus!
