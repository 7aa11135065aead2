//! The identity of a node in the Iroh network.

use vstd::prelude::*;
use vstd::utf8::encode_utf8;

use crate::time::{secs, Duration};
use crate::types::NodeId;

verus! {

/// How the Iroh transport is set up.
#[derive(Debug, Clone)]
pub struct IrohTransportConfig {
    /// The node's id, from which its Iroh identity follows.
    pub node_id: [u8; 20],
    /// Datagram port to listen on.
    pub listen_port: u16,
    /// Where the identity is kept.
    pub data_dir: String,
    /// Whether relays are used.
    pub derp_enabled: bool,
    /// Relays to use in place of the public ones.
    pub derp_urls: Vec<String>,
    /// How long a connection may take.
    pub connect_timeout: Duration,
    /// Name of the protocol that is spoken.
    pub alpn: Vec<u8>,
}

impl Default for IrohTransportConfig {
    fn default() -> (r: Self)
        ensures
            r.node_id@ == Seq::new(20, |i: int| 0u8),
            r.listen_port == 6885,
            r.data_dir@ == "./data"@,
            r.derp_enabled,
            r.derp_urls@.len() == 0,
            r.connect_timeout@ == secs(10),
            r.alpn@ == encode_utf8("pnos/federation/1"@),
    {
        let node_id: [u8; 20] = [0u8; 20];
        proof {
            assert(node_id@ =~= Seq::new(20, |i: int| 0u8));
        }
        let mut alpn: Vec<u8> = Vec::new();
        alpn.extend_from_slice("pnos/federation/1".as_bytes());
        proof {
            assert(alpn@ =~= encode_utf8("pnos/federation/1"@));
        }
        IrohTransportConfig {
            node_id,
            listen_port: 6885,
            data_dir: "./data".to_owned(),
            derp_enabled: true,
            derp_urls: Vec::new(),
            connect_timeout: Duration::from_secs(10),
            alpn,
        }
    }
}

/// The 32 bytes that HKDF with SHA-256 derives from a salt, key material and an
/// info text.
pub uninterp spec fn hkdf_sha256(salt: Seq<u8>, material: Seq<u8>, info: Seq<u8>) -> Seq<u8>;

/// `hkdf::Hkdf::<sha2::Sha256>::new` with a salt, then `expand` to 32 bytes, which
/// fails only for lengths far beyond that.
#[verifier::external_body]
fn derive_bytes(salt: &[u8], material: &[u8], info: &[u8]) -> (r: [u8; 32])
    ensures
        r@ == hkdf_sha256(salt@, material@, info@),
{
    let hk = hkdf::Hkdf::<sha2::Sha256>::new(Some(salt), material);
    let mut out = [0u8; 32];
    hk.expand(info, &mut out).expect("32 bytes can always be derived");
    out
}

/// The Ed25519 public key of the secret key with the given bytes.
pub uninterp spec fn ed25519_public(secret: Seq<u8>) -> Seq<u8>;

/// `iroh_base::SecretKey::from_bytes` and `public`: the public key of a secret
/// key, in its 32 bytes.
#[verifier::external_body]
fn public_key_of(secret: &[u8; 32]) -> (r: [u8; 32])
    ensures
        r@ == ed25519_public(secret@),
{
    *iroh_base::SecretKey::from_bytes(secret).public().as_bytes()
}

/// The secret key bytes of a node.
pub open spec fn node_seed(node_id: Seq<u8>) -> Seq<u8> {
    hkdf_sha256(
        encode_utf8("pnos-iroh-identity-v1"@),
        node_id,
        encode_utf8("ed25519-seed"@),
    )
}

/// The identity that a node has: its id, its secret key and its public key.
#[derive(Debug, Clone, Copy)]
pub struct IrohIdentity {
    pub pnos_node_id: [u8; 20],
    pub secret_key: [u8; 32],
    pub iroh_node_id: [u8; 32],
    /// Whether the secret key has still to be kept on disk.
    pub is_new: bool,
}

/// The kept key is not 32 bytes long; its length.
#[derive(Debug, Clone, Copy, PartialEq, Eq, Structural)]
pub struct KeyLengthError(pub usize);

impl IrohIdentity {
    /// The identity of a node, from the key that was kept on disk or, where none
    /// was, from the node's id.
    pub fn from_pnos_node_id(node_id: [u8; 20], kept: Option<&Vec<u8>>) -> (r: Result<
        Self,
        KeyLengthError,
    >)
        ensures
            r is Ok ==> r->Ok_0.secret_key@ == secret_for(node_id@, match kept {
                Some(k) => Some(k@),
                None => None,
            }),
            match r {
                Ok(i) => {
                    &&& i.pnos_node_id == node_id
                    &&& i.iroh_node_id@ == ed25519_public(i.secret_key@)
                    &&& i.is_new == (kept is None)
                    &&& i.secret_key@ == match kept {
                        Some(k) => k@,
                        None => node_seed(node_id@),
                    }
                },
                Err(e) => kept is Some && kept->0@.len() != 32 && e.0 == kept->0@.len(),
            },
            r is Err <==> kept is Some && kept->0@.len() != 32,
    {
        match kept {
            Some(k) => {
                if k.len() != 32 {
                    return Err(KeyLengthError(k.len()));
                }
                let mut secret: [u8; 32] = [0u8; 32];
                let mut i: usize = 0;
                while i < 32
                    invariant
                        i <= 32,
                        k@.len() == 32,
                        forall|j: int| 0 <= j < i ==> secret@[j] == k@[j],
                    decreases 32 - i,
                {
                    secret[i] = k[i];
                    i = i + 1;
                }
                proof {
                    assert(secret@ =~= k@);
                }
                Ok(
                    IrohIdentity {
                        pnos_node_id: node_id,
                        secret_key: secret,
                        iroh_node_id: public_key_of(&secret),
                        is_new: false,
                    },
                )
            },
            None => {
                let secret = Self::derive_seed(&node_id);
                Ok(
                    IrohIdentity {
                        pnos_node_id: node_id,
                        secret_key: secret,
                        iroh_node_id: public_key_of(&secret),
                        is_new: true,
                    },
                )
            },
        }
    }

    /// The secret key bytes that follow from a node's id.
    pub fn derive_seed(node_id: &[u8; 20]) -> (r: [u8; 32])
        ensures
            r@ == node_seed(node_id@),
    {
        derive_bytes(
            "pnos-iroh-identity-v1".as_bytes(),
            node_id.as_slice(),
            "ed25519-seed".as_bytes(),
        )
    }

    /// The public key under which the node with that id is dialled.
    pub fn pnos_to_iroh_node_id(node_id: &NodeId) -> (r: [u8; 32])
        ensures
            r@ == public_id_of(node_id.0@),
            r@ == ed25519_public(node_seed(node_id.0@)),
    {
        let seed = Self::derive_seed(&node_id.0);
        public_key_of(&seed)
    }
}

/// The secret key of a node: the kept one, or the one derived from its id.
pub open spec fn secret_for(node_id: Seq<u8>, kept: Option<Seq<u8>>) -> Seq<u8> {
    match kept {
        Some(k) => k,
        None => node_seed(node_id),
    }
}

/// A kept key is used as it is, whatever the id; without one the key is a function of the
/// id alone, under the names that every version of the node uses.
pub proof fn lemma_keys(node_id: Seq<u8>, other: Seq<u8>, kept: Seq<u8>)
    ensures
        secret_for(node_id, Some(kept)) == kept,
        secret_for(other, Some(kept)) == secret_for(node_id, Some(kept)),
        secret_for(node_id, None) == hkdf_sha256(
            encode_utf8("pnos-iroh-identity-v1"@),
            node_id,
            encode_utf8("ed25519-seed"@),
        ),
{
}

/// The public id that belongs to a node's id.
pub open spec fn public_id_of(node_id: Seq<u8>) -> Seq<u8> {
    ed25519_public(node_seed(node_id))
}

/// The public id of a node is that of the key that it would derive itself.
pub proof fn lemma_public_ids(node_id: Seq<u8>)
    ensures
        public_id_of(node_id) == ed25519_public(secret_for(node_id, None)),
{
}

} // verus!
