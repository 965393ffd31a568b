//! Public-key encryption of vectors of group elements over the Edwards BLS12
//! curve, with the node roles of the surrounding network.

pub mod curve;
pub mod node;
pub mod scheme;

pub use curve::{is_valid_element, is_valid_scalar};
pub use node::NodeType;
pub use scheme::{
    DecryptionError, EncryptionError, GroupEncryption, PrivateKey, PublicKey, SchemeParameters,
};
