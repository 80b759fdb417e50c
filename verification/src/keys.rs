//! Keys on the secp256k1 curve, held as plain bytes.

use vstd::prelude::*;

verus! {

/// The order of the secp256k1 group.
pub open spec fn curve_order() -> nat {
    0xFFFFFFFFFFFFFFFFFFFFFFFFFFFFFFFEBAAEDCE6AF48A03BBFD25E8CD0364141nat
}

/// The number that `bytes` write in base 256, the most significant byte first.
pub open spec fn big_endian(bytes: Seq<u8>) -> nat
    decreases bytes.len(),
{
    if bytes.len() == 0 {
        0
    } else {
        big_endian(bytes.drop_last()) * 256 + bytes.last() as nat
    }
}

/// A scalar that can serve as a secret key: neither zero nor beyond the group order.
pub open spec fn is_secret_scalar(scalar: nat) -> bool {
    0 < scalar < curve_order()
}

/// The sum of two scalars in the group of scalars.
pub open spec fn tweaked(scalar: nat, tweak: nat) -> nat {
    (scalar + tweak) % curve_order()
}

/// The compressed encoding of the point that `bitcoin::secp256k1::PublicKey::from_secret_key`
/// gives for a secret scalar.
pub uninterp spec fn compressed_point(scalar: nat) -> Seq<u8>;

/// `bitcoin::secp256k1::Error`, carried as it is.
#[verifier::external_type_specification]
#[verifier::external_body]
pub struct ExSecpError(bitcoin::secp256k1::Error);

/// Whether `bitcoin::secp256k1::SecretKey::from_slice` takes the bytes: it does exactly when
/// they write, big endian, a number between one and the group order, the order left out.
#[verifier::external_body]
fn is_secret_key(bytes: &[u8; 32]) -> (valid: bool)
    ensures
        valid == is_secret_scalar(big_endian(bytes@)),
{
    bitcoin::secp256k1::SecretKey::from_slice(bytes).is_ok()
}

/// `bitcoin::secp256k1::SecretKey::add_tweak`, with the tweak taken from a secret key: the sum of
/// the two scalars modulo the group order. It is refused exactly when that sum is zero.
#[verifier::external_body]
fn add_secret_keys(key: &[u8; 32], tweak: &[u8; 32]) -> (sum: Result<
    [u8; 32],
    bitcoin::secp256k1::Error,
>)
    requires
        is_secret_scalar(big_endian(key@)),
        is_secret_scalar(big_endian(tweak@)),
    ensures
        sum is Ok <==> tweaked(big_endian(key@), big_endian(tweak@)) != 0,
        sum matches Ok(bytes) ==> big_endian(bytes@) == tweaked(
            big_endian(key@),
            big_endian(tweak@),
        ),
{
    let key = bitcoin::secp256k1::SecretKey::from_slice(key)?;
    let tweak = bitcoin::secp256k1::SecretKey::from_slice(tweak)?;
    Ok(key.add_tweak(&tweak.into())?.secret_bytes())
}

/// `bitcoin::secp256k1::PublicKey::from_secret_key`, in the compressed encoding. The point is a
/// function of the scalar alone; which point it is stays unsaid.
#[verifier::external_body]
fn point_of_secret_key(key: &[u8; 32]) -> (point: Vec<u8>)
    requires
        is_secret_scalar(big_endian(key@)),
    ensures
        point@ == compressed_point(big_endian(key@)),
{
    let secp = bitcoin::secp256k1::Secp256k1::new();
    let key = bitcoin::secp256k1::SecretKey::from_slice(key).expect("a secret scalar");
    bitcoin::secp256k1::PublicKey::from_secret_key(&secp, &key).serialize().to_vec()
}

/// A secret key. Its view is its scalar.
pub struct SecretKey {
    bytes: [u8; 32],
}

impl View for SecretKey {
    type V = nat;

    closed spec fn view(&self) -> nat {
        big_endian(self.bytes@)
    }
}

impl SecretKey {
    #[verifier::type_invariant]
    spec fn is_secret(self) -> bool {
        is_secret_scalar(big_endian(self.bytes@))
    }

    /// The secret key that `bytes` write, big endian, where they write one.
    pub fn from_bytes(bytes: [u8; 32]) -> (key: Option<SecretKey>)
        ensures
            key is Some <==> is_secret_scalar(big_endian(bytes@)),
            key matches Some(k) ==> k@ == big_endian(bytes@),
    {
        if is_secret_key(&bytes) {
            Some(SecretKey { bytes })
        } else {
            None
        }
    }

    /// The bytes of the scalar, big endian.
    pub fn to_bytes(&self) -> (bytes: [u8; 32])
        ensures
            big_endian(bytes@) == self@,
            is_secret_scalar(self@),
    {
        proof {
            use_type_invariant(self);
        }
        self.bytes
    }

    /// The key tweaked by adding `tweak` to it; `None` where the sum vanishes.
    pub fn add_tweak(&self, tweak: &SecretKey) -> (sum: Option<SecretKey>)
        ensures
            sum is Some <==> tweaked(self@, tweak@) != 0,
            sum matches Some(key) ==> key@ == tweaked(self@, tweak@),
    {
        proof {
            use_type_invariant(self);
            use_type_invariant(tweak);
        }
        match add_secret_keys(&self.bytes, &tweak.bytes) {
            Ok(bytes) => Some(SecretKey { bytes }),
            Err(_) => None,
        }
    }

    /// The public key of this key, compressed.
    pub fn public_key(&self) -> (key: PublicKey)
        ensures
            key@ == compressed_point(self@),
    {
        proof {
            use_type_invariant(self);
        }
        PublicKey { bytes: point_of_secret_key(&self.bytes) }
    }
}

/// A public key in its serialized form. Its view is the bytes.
#[derive(Debug)]
pub struct PublicKey {
    pub bytes: Vec<u8>,
}

impl View for PublicKey {
    type V = Seq<u8>;

    open spec fn view(&self) -> Seq<u8> {
        self.bytes@
    }
}

/// What the bytes of a secret key write: each byte counts 256 times as much as the one behind it.
pub proof fn law_each_byte_counts_by_its_place(high: Seq<u8>, low: u8)
    ensures
        big_endian(Seq::empty()) == 0,
        big_endian(high.push(low)) == 256 * big_endian(high) + low,
{
    assert(high.push(low).drop_last() =~= high);
}

/// The secret scalars are those from one up to the group order, and the group order is the one of
/// secp256k1.
pub proof fn law_secret_scalars(scalar: nat)
    ensures
        curve_order() + 0x1_4551231950B75FC4_402DA1732FC9BEBFint
            == 0x1_0000000000000000_0000000000000000_0000000000000000_0000000000000000int,
        is_secret_scalar(scalar) <==> 1 <= scalar && scalar + 1 <= curve_order(),
{
}

/// Tweaking adds: of two secret scalars the tweaked one is their sum, less the group order where
/// the sum reaches it. So it does not matter which of the two is tweaked, and the tweaked scalar
/// vanishes exactly if the two make up the group order.
pub proof fn law_tweaking_adds(scalar: nat, tweak: nat)
    requires
        is_secret_scalar(scalar),
        is_secret_scalar(tweak),
    ensures
        scalar + tweak < curve_order() ==> tweaked(scalar, tweak) == scalar + tweak,
        scalar + tweak >= curve_order() ==> tweaked(scalar, tweak) == scalar + tweak
            - curve_order(),
        tweaked(scalar, tweak) == tweaked(tweak, scalar),
        tweaked(scalar, tweak) == 0 <==> scalar + tweak == curve_order(),
{
    let order = curve_order();
    if scalar + tweak < order {
        vstd::arithmetic::div_mod::lemma_small_mod(scalar + tweak, order);
    } else {
        vstd::arithmetic::div_mod::lemma_mod_sub_multiples_vanish(
            (scalar + tweak) as int,
            order as int,
        );
        vstd::arithmetic::div_mod::lemma_small_mod((scalar + tweak - order) as nat, order);
    }
}

/// The bytes of a secret key are determined by its scalar: of one length, only one string of bytes
/// writes a number.
pub proof fn law_bytes_are_determined_by_the_scalar(a: Seq<u8>, b: Seq<u8>)
    requires
        a.len() == b.len(),
        big_endian(a) == big_endian(b),
    ensures
        a == b,
    decreases a.len(),
{
    if a.len() > 0 {
        law_bytes_are_determined_by_the_scalar(a.drop_last(), b.drop_last());
        assert(a =~= a.drop_last().push(a.last()));
        assert(b =~= b.drop_last().push(b.last()));
    } else {
        assert(a =~= b);
    }
}

} // verus!
