//! Capability-based access control.
//!
//! A capability names an object and one permission on it, and carries an
//! HMAC-SHA256 tag over a textual message built from both under the kernel key.
//! A capability is valid when its tag is the one the kernel computes for its
//! object and permission.

use hmac::{Hmac, Mac};
use sha2::Sha256;
use vstd::prelude::*;

verus! {

/// Unique object reference.
#[derive(Debug, Clone, Copy, PartialEq, Eq)]
pub struct ObjectRef(pub u64);

/// Permission type.
#[derive(Debug, Clone, Copy, PartialEq, Eq)]
pub enum Permission {
    Read,
    Write,
    Execute,
    Delegate,
    Revoke,
}

/// HMAC-SHA256 of `message` under `key`, as the `hmac` and `sha2` crates compute it.
pub uninterp spec fn hmac_sha256(key: Seq<u8>, message: Seq<u8>) -> Seq<u8>;

/// Computes HMAC-SHA256 with `Hmac::<Sha256>::new_from_slice`, `Mac::chain_update`,
/// `Mac::finalize` and `CtOutput::into_bytes`. The contract claims only that the
/// 32-byte result is the HMAC-SHA256 of `message` under `key`, a function of the two
/// alone; `new_from_slice` accepts keys of every length, so the call does not fail.
#[verifier::external_body]
fn hmac_sha256_tag(key: &[u8], message: &[u8]) -> (tag: [u8; 32])
    ensures
        tag@ == hmac_sha256(key@, message@),
{
    let mac = Hmac::<Sha256>::new_from_slice(key).expect("HMAC accepts keys of any length");
    let bytes = mac.chain_update(message).finalize().into_bytes();
    let mut tag = [0u8; 32];
    tag.copy_from_slice(&bytes[..32]);
    tag
}

/// Decimal digits of `n`, most significant first, as ASCII bytes (no leading zeros).
pub open spec fn decimal_digits(n: nat) -> Seq<u8>
    decreases n,
{
    if n < 10 {
        seq![(48 + n) as u8]
    } else {
        decimal_digits(n / 10).push((48 + n % 10) as u8)
    }
}

/// The ASCII name of a permission, as its `Debug` form writes it.
pub open spec fn permission_name(p: Permission) -> Seq<u8> {
    match p {
        // "Read"
        Permission::Read => seq![82, 101, 97, 100],
        // "Write"
        Permission::Write => seq![87, 114, 105, 116, 101],
        // "Execute"
        Permission::Execute => seq![69, 120, 101, 99, 117, 116, 101],
        // "Delegate"
        Permission::Delegate => seq![68, 101, 108, 101, 103, 97, 116, 101],
        // "Revoke"
        Permission::Revoke => seq![82, 101, 118, 111, 107, 101],
    }
}

/// The ASCII bytes of `ObjectRef(`.
pub open spec fn object_prefix() -> Seq<u8> {
    seq![79, 98, 106, 101, 99, 116, 82, 101, 102, 40]
}

/// The message a capability's tag authenticates: `ObjectRef(<object>):<Permission>`,
/// the `Debug` forms of the object and the permission joined by a colon.
pub open spec fn capability_message_bytes(object: ObjectRef, permission: Permission) -> Seq<u8> {
    object_prefix() + decimal_digits(object.0 as nat) + seq![41, 58] + permission_name(permission)
}

/// Append `bytes` to `out`.
fn push_bytes(out: &mut Vec<u8>, bytes: &[u8])
    ensures
        final(out)@ == old(out)@ + bytes@,
{
    let mut i: usize = 0;
    while i < bytes.len()
        invariant
            i <= bytes.len(),
            out@ == old(out)@ + bytes@.take(i as int),
        decreases bytes.len() - i,
    {
        out.push(bytes[i]);
        i = i + 1;
        assert(out@ =~= old(out)@ + bytes@.take(i as int));
    }
    assert(bytes@.take(i as int) =~= bytes@);
}

/// Append the decimal digits of `n` to `out`.
fn push_decimal(out: &mut Vec<u8>, n: u64)
    ensures
        final(out)@ == old(out)@ + decimal_digits(n as nat),
    decreases n,
{
    if n >= 10 {
        push_decimal(out, n / 10);
    }
    let digit = (n % 10) as u8;
    out.push(48u8 + digit);
    assert(out@ =~= old(out)@ + decimal_digits(n as nat));
}

/// The message that a capability for `object` and `permission` authenticates.
pub fn capability_message(object: ObjectRef, permission: Permission) -> (msg: Vec<u8>)
    ensures
        msg@ == capability_message_bytes(object, permission),
{
    let mut msg: Vec<u8> = Vec::new();
    // "ObjectRef("
    push_bytes(&mut msg, &[79, 98, 106, 101, 99, 116, 82, 101, 102, 40]);
    push_decimal(&mut msg, object.0);
    // "):"
    push_bytes(&mut msg, &[41, 58]);
    match permission {
        Permission::Read => push_bytes(&mut msg, &[82, 101, 97, 100]),
        Permission::Write => push_bytes(&mut msg, &[87, 114, 105, 116, 101]),
        Permission::Execute => push_bytes(&mut msg, &[69, 120, 101, 99, 117, 116, 101]),
        Permission::Delegate => push_bytes(&mut msg, &[68, 101, 108, 101, 103, 97, 116, 101]),
        Permission::Revoke => push_bytes(&mut msg, &[82, 101, 118, 111, 107, 101]),
    }
    assert(msg@ =~= capability_message_bytes(object, permission));
    msg
}

/// The kernel's capability key, the ASCII bytes of `APOLLO_KERNEL_SECRET`.
pub open spec fn capability_key() -> Seq<u8> {
    seq![65, 80, 79, 76, 76, 79, 95, 75, 69, 82, 78, 69, 76, 95, 83, 69, 67, 82, 69, 84]
}

/// The kernel's capability key as an executable value.
fn capability_key_bytes() -> (key: Vec<u8>)
    ensures
        key@ == capability_key(),
{
    let mut key: Vec<u8> = Vec::new();
    push_bytes(&mut key, &[65, 80, 79, 76, 76, 79, 95, 75, 69, 82, 78, 69, 76, 95, 83, 69, 67, 82, 69, 84]);
    key
}

/// The tag that a genuine capability for `object` and `permission` carries.
pub open spec fn capability_tag(object: ObjectRef, permission: Permission) -> Seq<u8> {
    hmac_sha256(capability_key(), capability_message_bytes(object, permission))
}

/// Capability - unforgeable token granting permissions.
pub struct Capability {
    object: ObjectRef,
    permission: Permission,
    hmac_tag: [u8; 32],
}

impl Capability {
    /// The object this capability names.
    pub closed spec fn granted_object(self) -> ObjectRef {
        self.object
    }

    /// The permission this capability grants.
    pub closed spec fn granted_permission(self) -> Permission {
        self.permission
    }

    /// The tag this capability carries.
    pub closed spec fn tag_bytes(self) -> Seq<u8> {
        self.hmac_tag@
    }

    /// The capability carries the tag the kernel computes for its object and permission.
    pub open spec fn is_authentic(self) -> bool {
        self.tag_bytes() == capability_tag(self.granted_object(), self.granted_permission())
    }

    /// Create a new capability for `object` and `permission`, tagged with the HMAC of
    /// its message under the kernel key.
    pub fn new(object: ObjectRef, permission: Permission) -> (cap: Self)
        ensures
            cap.granted_object() == object,
            cap.granted_permission() == permission,
            cap.tag_bytes() == capability_tag(object, permission),
    {
        let key = capability_key_bytes();
        let msg = capability_message(object, permission);
        let tag = hmac_sha256_tag(key.as_slice(), msg.as_slice());
        Capability { object, permission, hmac_tag: tag }
    }

    /// Compare the carried tag with `expected`, byte by byte over all 32 bytes, without
    /// stopping at the first difference.
    pub fn check_tag(&self, expected: &[u8; 32]) -> (r: Result<(), &'static str>)
        ensures
            r == (if self.tag_bytes() == expected@ {
                Ok::<(), &'static str>(())
            } else {
                Err("Capability validation failed")
            }),
    {
        let mut eq = true;
        let mut i: usize = 0;
        while i < 32
            invariant
                i <= 32,
                eq == (forall|j: int| 0 <= j < i ==> self.hmac_tag@[j] == expected@[j]),
            decreases 32 - i,
        {
            if self.hmac_tag[i] != expected[i] {
                eq = false;
            }
            i = i + 1;
        }
        if eq {
            assert(self.hmac_tag@ =~= expected@);
            Ok(())
        } else {
            Err("Capability validation failed")
        }
    }

    /// Validate capability authenticity: recompute the tag for the capability's
    /// object and permission and compare it with the carried one.
    pub fn validate(&self) -> (r: Result<(), &'static str>)
        ensures
            r == (if self.is_authentic() {
                Ok::<(), &'static str>(())
            } else {
                Err("Capability validation failed")
            }),
    {
        let key = capability_key_bytes();
        let msg = capability_message(self.object, self.permission);
        let computed = hmac_sha256_tag(key.as_slice(), msg.as_slice());
        self.check_tag(&computed)
    }

    /// Get the object this capability grants access to.
    pub fn object(&self) -> (o: ObjectRef)
        ensures
            o == self.granted_object(),
    {
        self.object
    }

    /// Get the permission this capability grants.
    pub fn permission(&self) -> (p: Permission)
        ensures
            p == self.granted_permission(),
    {
        self.permission
    }
}

impl Clone for Capability {
    /// A copy of the capability: same object, permission and tag.
    fn clone(&self) -> (c: Self)
        ensures
            c == *self,
    {
        Capability { object: self.object, permission: self.permission, hmac_tag: self.hmac_tag }
    }
}

/// A clone of a capability names the same object and permission, carries the same
/// tag, and so is authentic exactly when the original is.
pub proof fn lemma_clone_keeps_capability(cap: Capability, copy: Capability)
    requires
        copy == cap,
    ensures
        copy.granted_object() == cap.granted_object(),
        copy.granted_permission() == cap.granted_permission(),
        copy.tag_bytes() == cap.tag_bytes(),
        copy.is_authentic() == cap.is_authentic(),
{
}

/// Capability database.
pub struct CapabilityDatabase {}

impl CapabilityDatabase {
    pub fn new() -> (db: Self) {
        CapabilityDatabase {}
    }
}

proof fn lemma_decimal_digits_are_digits(n: nat)
    ensures
        decimal_digits(n).len() >= 1,
        forall|i: int| 0 <= i < decimal_digits(n).len() ==> 48 <= #[trigger] decimal_digits(n)[i] <= 57,
        n < 10 ==> decimal_digits(n).len() == 1 && decimal_digits(n)[0] == 48 + n,
        n >= 10 ==> decimal_digits(n).len() >= 2 && decimal_digits(n).last() == 48 + n % 10
            && decimal_digits(n).drop_last() == decimal_digits(n / 10),
    decreases n,
{
    if n >= 10 {
        lemma_decimal_digits_are_digits(n / 10);
        assert(decimal_digits(n).drop_last() =~= decimal_digits(n / 10));
    }
}

proof fn lemma_decimal_digits_injective(a: nat, b: nat)
    requires
        decimal_digits(a) == decimal_digits(b),
    ensures
        a == b,
    decreases a,
{
    lemma_decimal_digits_are_digits(a);
    lemma_decimal_digits_are_digits(b);
    if a >= 10 && b >= 10 {
        // Equal leading digits give equal quotients, equal last digits equal remainders.
        lemma_decimal_digits_injective(a / 10, b / 10);
        assert(a == (a / 10) * 10 + a % 10);
        assert(b == (b / 10) * 10 + b % 10);
    }
}

/// A capability's message names its object and permission unambiguously: different
/// objects or permissions never share a message, so a tag authenticates exactly one
/// pair.
pub proof fn lemma_capability_message_injective(o1: ObjectRef, p1: Permission, o2: ObjectRef, p2: Permission)
    requires
        capability_message_bytes(o1, p1) == capability_message_bytes(o2, p2),
    ensures
        o1 == o2,
        p1 == p2,
{
    let m1 = capability_message_bytes(o1, p1);
    let m2 = capability_message_bytes(o2, p2);
    let d1 = decimal_digits(o1.0 as nat);
    let d2 = decimal_digits(o2.0 as nat);
    lemma_decimal_digits_are_digits(o1.0 as nat);
    lemma_decimal_digits_are_digits(o2.0 as nat);
    let suffix1 = seq![41u8, 58u8] + permission_name(p1);
    let suffix2 = seq![41u8, 58u8] + permission_name(p2);
    assert(m1 =~= object_prefix() + d1 + suffix1);
    assert(m2 =~= object_prefix() + d2 + suffix2);
    if d1.len() < d2.len() {
        assert(m1[10 + d1.len() as int] == 41);
        assert(m2[10 + d1.len() as int] == d2[d1.len() as int]);
        assert(false);
    } else if d2.len() < d1.len() {
        assert(m2[10 + d2.len() as int] == 41);
        assert(m1[10 + d2.len() as int] == d1[d2.len() as int]);
        assert(false);
    }
    assert(d1 =~= m1.subrange(10, 10 + d1.len() as int));
    assert(d2 =~= m2.subrange(10, 10 + d2.len() as int));
    lemma_decimal_digits_injective(o1.0 as nat, o2.0 as nat);
    let start: int = 12 + d1.len() as int;
    assert(permission_name(p1) =~= m1.subrange(start, m1.len() as int));
    assert(permission_name(p2) =~= m2.subrange(start, m2.len() as int));
}

/// The number that a string of ASCII decimal digits spells, most significant first.
pub open spec fn digits_value(s: Seq<u8>) -> nat
    decreases s.len(),
{
    if s.len() == 0 {
        0
    } else {
        digits_value(s.drop_last()) * 10 + (s.last() - 48) as nat
    }
}

proof fn lemma_decimal_digits_value(n: nat)
    ensures
        digits_value(decimal_digits(n)) == n,
        n >= 1 ==> decimal_digits(n)[0] != 48,
    decreases n,
{
    lemma_decimal_digits_are_digits(n);
    if n >= 10 {
        lemma_decimal_digits_value(n / 10);
        assert(decimal_digits(n)[0] == decimal_digits(n / 10)[0]);
        assert(digits_value(decimal_digits(n)) == digits_value(decimal_digits(n / 10)) * 10 + n % 10);
        assert(n == (n / 10) * 10 + n % 10);
    } else {
        assert(decimal_digits(n).drop_last() =~= Seq::<u8>::empty());
        assert(digits_value(decimal_digits(n)) == digits_value(Seq::<u8>::empty()) * 10 + n);
    }
}

/// The message is the `Debug` text of the object and the permission joined by a colon:
/// `ObjectRef(`, the object's number in decimal without leading zeros, `):`, and the
/// permission's name.
pub proof fn lemma_capability_message_is_debug_text(object: ObjectRef, permission: Permission)
    ensures
        ({
            let m = capability_message_bytes(object, permission);
            let name: Seq<u8> = match permission {
                Permission::Read => seq![82, 101, 97, 100],
                Permission::Write => seq![87, 114, 105, 116, 101],
                Permission::Execute => seq![69, 120, 101, 99, 117, 116, 101],
                Permission::Delegate => seq![68, 101, 108, 101, 103, 97, 116, 101],
                Permission::Revoke => seq![82, 101, 118, 111, 107, 101],
            };
            let end = m.len() - name.len() - 2;
            &&& 11 <= end
            &&& m.take(10) == seq![79u8, 98, 106, 101, 99, 116, 82, 101, 102, 40]
            &&& forall|k: int| 10 <= k < end ==> 48 <= #[trigger] m[k] <= 57
            &&& digits_value(m.subrange(10, end)) == object.0
            &&& (end == 11 || m[10] != 48)
            &&& m[end] == 41
            &&& m[end + 1] == 58
            &&& m.skip(end + 2) == name
        }),
{
    let m = capability_message_bytes(object, permission);
    let d = decimal_digits(object.0 as nat);
    lemma_decimal_digits_are_digits(object.0 as nat);
    lemma_decimal_digits_value(object.0 as nat);
    let name = permission_name(permission);
    let end = m.len() - name.len() - 2;
    assert(end == 10 + d.len());
    assert(m.take(10) =~= object_prefix());
    assert(m.subrange(10, end) =~= d);
    assert(m.skip(end + 2) =~= name);
    assert forall|k: int| 10 <= k < end implies 48 <= #[trigger] m[k] <= 57 by {
        assert(m[k] == d[k - 10]);
    }
    assert(m[10] == d[0]);
}

/// A capability made by `Capability::new` validates: its tag is the one the kernel
/// computes for its object and permission.
pub proof fn lemma_new_capability_validates(cap: Capability, object: ObjectRef, permission: Permission)
    requires
        cap.granted_object() == object,
        cap.granted_permission() == permission,
        cap.tag_bytes() == capability_tag(object, permission),
    ensures
        cap.is_authentic(),
{
}

} // verus!
