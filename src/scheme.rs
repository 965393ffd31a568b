//! The group encryption scheme: `setup`, `keygen`, `encrypt` and `decrypt`.
//!
//! A plaintext `(m1, ..., mn)` under the public key `y = x * G` and the
//! ephemeral scalar `r` becomes `(r * G, m1 + h1, ..., mn + hn)`, where the
//! mask `hi = s(S, i) * G` comes from the shared element `S = r * y` through
//! a hash `s` onto the scalar field. The holder of `x` recovers `S` as
//! `x * (r * G)` and subtracts the same masks.
use crate::curve::{
    add_elements, element_difference, element_sum, is_element, is_identity, is_identity_element,
    is_scalar, is_valid_element, is_valid_scalar, mask_scalar, mask_scalar_of, scale_element,
    scaled, sub_elements,
};
use vstd::prelude::*;

verus! {

/// Why a plaintext was not encrypted.
#[derive(Clone, Copy, Debug, PartialEq, Eq, Structural)]
pub enum EncryptionError {
    /// The plaintext holds no element.
    EmptyMessage,
    /// The source of randomness could not produce the ephemeral scalar.
    RandomnessFailure,
}

/// Why a ciphertext was not decrypted.
#[derive(Clone, Copy, Debug, PartialEq, Eq, Structural)]
pub enum DecryptionError {
    /// The ciphertext is empty, or one of its components is not the canonical
    /// encoding of a group element.
    MalformedCiphertext,
}

/// The parameters that every key pair of one deployment shares.
pub struct SchemeParameters {
    /// The encoding of the generator `G`.
    pub generator: Vec<u8>,
}

/// The encryption scheme, fixed by its parameters.
pub struct GroupEncryption {
    pub parameters: SchemeParameters,
}

/// A private key: the encoding of a scalar `x`.
pub struct PrivateKey {
    pub scalar: Vec<u8>,
}

/// A public key: the encoding of the element `x * G`.
pub struct PublicKey {
    pub element: Vec<u8>,
}

/// The encodings held by a vector of encodings.
pub open spec fn views(v: Seq<Vec<u8>>) -> Seq<Seq<u8>> {
    v.map_values(|e: Vec<u8>| e@)
}

/// Every entry is the canonical encoding of a group element.
pub open spec fn all_elements(s: Seq<Seq<u8>>) -> bool {
    forall|k: int| 0 <= k < s.len() ==> is_element(#[trigger] s[k])
}

/// The mask of the given index, derived from the shared element.
pub open spec fn mask(g: Seq<u8>, shared: Seq<u8>, index: int) -> Seq<u8> {
    scaled(mask_scalar_of(shared, index), g)
}

/// What encrypting the plaintext `m` under the public key `y` with the
/// ephemeral scalar `r` gives.
pub open spec fn encryption(g: Seq<u8>, y: Seq<u8>, m: Seq<Seq<u8>>, r: Seq<u8>) -> Result<
    Seq<Seq<u8>>,
    EncryptionError,
> {
    if m.len() == 0 {
        Err(EncryptionError::EmptyMessage)
    } else {
        Ok(
            seq![scaled(r, g)] + Seq::new(
                m.len(),
                |k: int| element_sum(m[k], mask(g, scaled(r, y), k + 1)),
            ),
        )
    }
}

/// What decrypting the ciphertext `c` with the private scalar `x` gives.
pub open spec fn decryption(g: Seq<u8>, x: Seq<u8>, c: Seq<Seq<u8>>) -> Result<
    Seq<Seq<u8>>,
    DecryptionError,
> {
    if c.len() == 0 || !all_elements(c) {
        Err(DecryptionError::MalformedCiphertext)
    } else {
        Ok(
            Seq::new(
                (c.len() - 1) as nat,
                |k: int| element_difference(c[k + 1], mask(g, scaled(x, c[0]), k + 1)),
            ),
        )
    }
}

impl GroupEncryption {
    /// The generator is a group element other than the identity.
    pub open spec fn wf(&self) -> bool {
        is_element(self.parameters.generator@) && !is_identity_element(self.parameters.generator@)
    }

    /// Fixes the scheme's generator. The caller draws it; a draw that is not
    /// the encoding of a group element, or is the identity, gives `None` and
    /// is to be drawn again.
    pub fn setup(generator: Vec<u8>) -> (r: Option<GroupEncryption>)
        ensures
            r is Some <==> is_element(generator@) && !is_identity_element(generator@),
            r matches Some(s) ==> s.parameters.generator@ == generator@ && s.wf(),
    {
        if is_valid_element(generator.as_slice()) && !is_identity(generator.as_slice()) {
            Some(GroupEncryption { parameters: SchemeParameters { generator } })
        } else {
            None
        }
    }

    /// Derives the key pair `(x, x * G)` from the scalar `x` that the caller
    /// drew. A draw that is not a scalar, or whose public key would be the
    /// identity (`x` is zero), gives `None` and is to be drawn again.
    pub fn keygen(&self, secret: Vec<u8>) -> (r: Option<(PrivateKey, PublicKey)>)
        requires
            self.wf(),
        ensures
            r is Some <==> is_scalar(secret@) && !is_identity_element(
                scaled(secret@, self.parameters.generator@),
            ),
            r matches Some(kp) ==> kp.0.scalar@ == secret@ && kp.1.element@ == scaled(
                secret@,
                self.parameters.generator@,
            ),
    {
        if !is_valid_scalar(secret.as_slice()) {
            return None;
        }
        let element = scale_element(secret.as_slice(), self.parameters.generator.as_slice());
        if is_identity(element.as_slice()) {
            return None;
        }
        Some((PrivateKey { scalar: secret }, PublicKey { element }))
    }

    /// Encrypts `message` under `public_key` with the ephemeral scalar
    /// `randomness`, which the caller draws afresh for every call.
    ///
    /// The ciphertext is exactly `encryption(..)`, and decrypting it with any
    /// private scalar whose public key is `public_key` gives `message` back.
    pub fn encrypt(&self, public_key: &PublicKey, message: &Vec<Vec<u8>>, randomness: &Vec<u8>) -> (r:
        Result<Vec<Vec<u8>>, EncryptionError>)
        requires
            self.wf(),
            is_element(public_key.element@),
            is_scalar(randomness@),
            all_elements(views(message@)),
        ensures
            match r {
                Ok(c) => {
                    &&& encryption(
                        self.parameters.generator@,
                        public_key.element@,
                        views(message@),
                        randomness@,
                    ) == Ok::<Seq<Seq<u8>>, EncryptionError>(views(c@))
                    &&& forall|x: Seq<u8>|
                        is_scalar(x) && #[trigger] scaled(x, self.parameters.generator@)
                            == public_key.element@ ==> decryption(
                            self.parameters.generator@,
                            x,
                            views(c@),
                        ) == Ok::<Seq<Seq<u8>>, DecryptionError>(views(message@))
                },
                Err(e) => encryption(
                    self.parameters.generator@,
                    public_key.element@,
                    views(message@),
                    randomness@,
                ) == Err::<Seq<Seq<u8>>, EncryptionError>(e),
            },
    {
        let n = message.len();
        if n == 0 {
            return Err(EncryptionError::EmptyMessage);
        }
        let g = &self.parameters.generator;
        let commitment = scale_element(randomness.as_slice(), g.as_slice());
        let shared = scale_element(randomness.as_slice(), public_key.element.as_slice());
        let ghost c0 = commitment@;
        let mut out: Vec<Vec<u8>> = Vec::new();
        out.push(commitment);
        let mut i: usize = 0;
        while i < n
            invariant
                n == message@.len(),
                i <= n,
                out@.len() == i + 1,
                out@[0]@ == c0,
                c0 == scaled(randomness@, g@),
                shared@ == scaled(randomness@, public_key.element@),
                is_element(shared@),
                is_element(g@),
                is_element(c0),
                all_elements(views(message@)),
                forall|k: int|
                    0 <= k < i ==> (#[trigger] out@[k + 1])@ == element_sum(
                        message@[k]@,
                        mask(g@, shared@, k + 1),
                    ) && is_element(out@[k + 1]@) && element_difference(
                        out@[k + 1]@,
                        mask(g@, shared@, k + 1),
                    ) == message@[k]@,
            decreases n - i,
        {
            let index = (i + 1) as u64;
            let h = mask_scalar(shared.as_slice(), index);
            let m = scale_element(h.as_slice(), g.as_slice());
            assert(is_element(views(message@)[i as int]));
            let c = add_elements(message[i].as_slice(), m.as_slice());
            out.push(c);
            i += 1;
        }
        proof {
            let cv = views(out@);
            let mv = views(message@);
            assert(cv.len() == n + 1);
            assert(all_elements(cv)) by {
                assert forall|k: int| 0 <= k < cv.len() implies is_element(#[trigger] cv[k]) by {
                    if k > 0 {
                        assert(out@[(k - 1) + 1] == out@[k]);
                    }
                }
            }
            assert(cv =~= seq![scaled(randomness@, g@)] + Seq::new(
                mv.len(),
                |k: int| element_sum(mv[k], mask(g@, scaled(randomness@, public_key.element@), k + 1)),
            ));
            assert forall|x: Seq<u8>|
                is_scalar(x) && #[trigger] scaled(x, g@) == public_key.element@ implies decryption(
                g@,
                x,
                cv,
            ) == Ok::<Seq<Seq<u8>>, DecryptionError>(mv) by {
                assert(scaled(x, c0) == scaled(randomness@, scaled(x, g@)));
                assert(Seq::new(
                    (cv.len() - 1) as nat,
                    |k: int| element_difference(cv[k + 1], mask(g@, scaled(x, cv[0]), k + 1)),
                ) =~= mv);
            }
        }
        Ok(out)
    }

    /// Decrypts `ciphertext` with `private_key`. The result is exactly
    /// `decryption(..)`: a malformed ciphertext is rejected, and otherwise
    /// the masks are recomputed from `x * c0` and subtracted.
    pub fn decrypt(&self, private_key: &PrivateKey, ciphertext: &Vec<Vec<u8>>) -> (r: Result<
        Vec<Vec<u8>>,
        DecryptionError,
    >)
        requires
            self.wf(),
            is_scalar(private_key.scalar@),
        ensures
            match r {
                Ok(m) => decryption(
                    self.parameters.generator@,
                    private_key.scalar@,
                    views(ciphertext@),
                ) == Ok::<Seq<Seq<u8>>, DecryptionError>(views(m@)),
                Err(e) => decryption(
                    self.parameters.generator@,
                    private_key.scalar@,
                    views(ciphertext@),
                ) == Err::<Seq<Seq<u8>>, DecryptionError>(e),
            },
    {
        let n = ciphertext.len();
        if n == 0 {
            return Err(DecryptionError::MalformedCiphertext);
        }
        let ghost cv = views(ciphertext@);
        let mut j: usize = 0;
        while j < n
            invariant
                n == ciphertext@.len(),
                cv == views(ciphertext@),
                j <= n,
                forall|k: int| 0 <= k < j ==> is_element(#[trigger] cv[k]),
            decreases n - j,
        {
            if !is_valid_element(ciphertext[j].as_slice()) {
                assert(!is_element(cv[j as int]));
                return Err(DecryptionError::MalformedCiphertext);
            }
            j += 1;
        }
        assert(all_elements(cv));
        let g = &self.parameters.generator;
        let x = &private_key.scalar;
        let shared = scale_element(x.as_slice(), ciphertext[0].as_slice());
        let mut out: Vec<Vec<u8>> = Vec::new();
        let mut i: usize = 1;
        while i < n
            invariant
                n == ciphertext@.len(),
                cv == views(ciphertext@),
                1 <= i <= n,
                out@.len() == i - 1,
                all_elements(cv),
                is_element(g@),
                shared@ == scaled(x@, cv[0]),
                is_element(shared@),
                forall|k: int|
                    0 <= k < i - 1 ==> (#[trigger] out@[k])@ == element_difference(
                        cv[k + 1],
                        mask(g@, shared@, k + 1),
                    ),
            decreases n - i,
        {
            let h = mask_scalar(shared.as_slice(), i as u64);
            let m = scale_element(h.as_slice(), g.as_slice());
            assert(is_element(cv[i as int]));
            let p = sub_elements(ciphertext[i].as_slice(), m.as_slice());
            out.push(p);
            i += 1;
        }
        assert(views(out@) =~= Seq::new(
            (cv.len() - 1) as nat,
            |k: int| element_difference(cv[k + 1], mask(g@, scaled(x@, cv[0]), k + 1)),
        ));
        Ok(out)
    }
}

/// Decryption depends on the private key and the ciphertext alone: two calls
/// on the same key and ciphertext give the same result.
pub proof fn lemma_decrypt_deterministic(g: Seq<u8>, x: Seq<u8>, c1: Seq<Seq<u8>>, c2: Seq<Seq<u8>>)
    requires
        c1 == c2,
    ensures
        decryption(g, x, c1) == decryption(g, x, c2),
{
}

/// A ciphertext without its commitment, or with a component that is not the
/// canonical encoding of a group element, is rejected as malformed.
pub proof fn lemma_malformed_rejected(g: Seq<u8>, x: Seq<u8>, c: Seq<Seq<u8>>, i: int)
    requires
        c.len() == 0 || (0 <= i < c.len() && !is_element(c[i])),
    ensures
        decryption(g, x, c) == Err::<Seq<Seq<u8>>, DecryptionError>(
            DecryptionError::MalformedCiphertext,
        ),
{
}

/// Dropping the commitment of a ciphertext of one component leaves a
/// ciphertext that is rejected as malformed.
pub proof fn lemma_shortened_rejected(g: Seq<u8>, x: Seq<u8>, c: Seq<Seq<u8>>)
    requires
        c.len() == 1,
    ensures
        decryption(g, x, c.drop_first()) == Err::<Seq<Seq<u8>>, DecryptionError>(
            DecryptionError::MalformedCiphertext,
        ),
{
}

/// An empty plaintext is rejected, whatever the key and the randomness.
pub proof fn lemma_empty_message_rejected(g: Seq<u8>, y: Seq<u8>, r: Seq<u8>)
    ensures
        encryption(g, y, Seq::<Seq<u8>>::empty(), r) == Err::<Seq<Seq<u8>>, EncryptionError>(
            EncryptionError::EmptyMessage,
        ),
{
}

} // verus!
