//! The registration handshake between a client and its gateway.
//!
//! Four messages cross the framed transport:
//!
//! 1. client to gateway: the client's identity key, then its key share;
//! 2. gateway to client: the gateway's key share, then its encrypted
//!    signature over both shares, the gateway's first;
//! 3. client to gateway: the client's encrypted signature over both shares,
//!    the client's first;
//! 4. gateway to client: one status byte, zero for success.
//!
//! Both sides are state machines here: each is handed what the transport
//! delivered and answers with the frame to send or with the outcome.

use vstd::prelude::*;
use crate::bytes::{all_zero, append_bytes, array16_at, array32_at, array64_at, copy_range};
use crate::crypto::{
    aes128_ctr, aes128_ctr_output, basepoint_bytes, ed25519_accepts, ed25519_key_valid,
    ed25519_sign, ed25519_signature, ed25519_verify, hkdf_sha256, hkdf_sha256_output, x25519,
    x25519_basepoint, x25519_output,
};
use crate::error::{ClientCoreError, HandshakeFailure};

verus! {

pub const PUBLIC_KEY_SIZE: usize = 32;

pub const SIGNATURE_SIZE: usize = 64;

/// Length of the first message.
pub const INIT_MESSAGE_SIZE: usize = 64;

/// Length of the second message.
pub const MID_MESSAGE_SIZE: usize = 96;

/// A long-term Ed25519 key pair.
#[derive(Debug, Clone, Copy, PartialEq, Eq)]
pub struct IdentityKeyPair {
    pub secret: [u8; 32],
    pub public: [u8; 32],
}

/// The symmetric keys that a handshake establishes.
#[derive(Debug, Clone, Copy, PartialEq, Eq)]
pub struct SharedKeys {
    pub encryption_key: [u8; 16],
    pub mac_key: [u8; 32],
}

/// The keys as byte strings: encryption key, then MAC key.
pub struct SharedKeysView {
    pub encryption_key: Seq<u8>,
    pub mac_key: Seq<u8>,
}

impl View for SharedKeys {
    type V = SharedKeysView;

    open spec fn view(&self) -> SharedKeysView {
        SharedKeysView { encryption_key: self.encryption_key@, mac_key: self.mac_key@ }
    }
}

/// What the transport delivered.
#[derive(Debug, Clone, PartialEq, Eq)]
pub enum TransportEvent {
    /// A handshake frame with this payload arrived.
    Frame(Vec<u8>),
    /// The transport failed or was closed.
    Closed,
    /// Nothing arrived within the response timeout.
    TimedOut,
}

/// The public share that belongs to an ephemeral secret.
pub open spec fn public_share(secret: Seq<u8>) -> Seq<u8> {
    x25519_output(secret, x25519_basepoint())
}

/// The keys that are derived from a Diffie-Hellman result.
pub open spec fn shared_keys_from(dh: Seq<u8>) -> SharedKeysView {
    SharedKeysView {
        encryption_key: hkdf_sha256_output(dh).subrange(0, 16),
        mac_key: hkdf_sha256_output(dh).subrange(16, 48),
    }
}

/// A Diffie-Hellman result of zeros only shows a share that contributes nothing.
pub open spec fn share_rejected(dh: Seq<u8>) -> bool {
    forall|i: int| 0 <= i < dh.len() ==> dh[i] == 0
}

/// The first message.
pub open spec fn init_message(identity: Seq<u8>, share: Seq<u8>) -> Seq<u8> {
    identity + share
}

/// The encrypted signature that proves possession of the identity key:
/// over the local share followed by the remote one.
pub open spec fn key_material(
    identity_secret: Seq<u8>,
    local_share: Seq<u8>,
    remote_share: Seq<u8>,
    encryption_key: Seq<u8>,
) -> Seq<u8> {
    aes128_ctr_output(encryption_key, ed25519_signature(identity_secret,
        local_share + remote_share))
}

/// Whether the material that the remote side sent is its signature over
/// its share followed by ours.
pub open spec fn material_accepted(
    remote_identity: Seq<u8>,
    remote_share: Seq<u8>,
    local_share: Seq<u8>,
    encryption_key: Seq<u8>,
    material: Seq<u8>,
) -> bool {
    ed25519_key_valid(remote_identity) && ed25519_accepts(
        remote_identity,
        remote_share + local_share,
        aes128_ctr_output(encryption_key, material),
    )
}

/// A handshake failure at `step`.
pub open spec fn failed_at(step: u8, reason: HandshakeFailure) -> ClientCoreError {
    ClientCoreError::HandshakeFailed { step, reason }
}

/// Derives the shared keys from a Diffie-Hellman result.
fn derive_shared_keys(dh: &[u8; 32]) -> (keys: SharedKeys)
    ensures
        keys@ == shared_keys_from(dh@),
{
    let okm = hkdf_sha256(dh);
    SharedKeys {
        encryption_key: array16_at(okm.as_slice(), 0),
        mac_key: array32_at(okm.as_slice(), 16),
    }
}

/// Signs both shares and encrypts the signature.
fn compute_material(
    identity_secret: &[u8; 32],
    local_share: &[u8; 32],
    remote_share: &[u8; 32],
    keys: &SharedKeys,
) -> (material: Vec<u8>)
    ensures
        material@ == key_material(
            identity_secret@,
            local_share@,
            remote_share@,
            keys@.encryption_key,
        ),
        material@.len() == SIGNATURE_SIZE,
{
    let mut message: Vec<u8> = Vec::new();
    append_bytes(&mut message, local_share.as_slice());
    append_bytes(&mut message, remote_share.as_slice());
    assert(message@ =~= local_share@ + remote_share@);
    let signature = ed25519_sign(identity_secret, message.as_slice());
    aes128_ctr(&keys.encryption_key, signature.as_slice())
}

/// Decrypts the remote material and checks the signature in it.
fn verify_material(
    remote_identity: &[u8; 32],
    remote_share: &[u8; 32],
    local_share: &[u8; 32],
    keys: &SharedKeys,
    material: &[u8],
) -> (accepted: bool)
    requires
        material@.len() == SIGNATURE_SIZE,
    ensures
        accepted == material_accepted(
            remote_identity@,
            remote_share@,
            local_share@,
            keys@.encryption_key,
            material@,
        ),
{
    let mut message: Vec<u8> = Vec::new();
    append_bytes(&mut message, remote_share.as_slice());
    append_bytes(&mut message, local_share.as_slice());
    assert(message@ =~= remote_share@ + local_share@);
    let decrypted = aes128_ctr(&keys.encryption_key, material);
    let signature = array64_at(decrypted.as_slice(), 0);
    assert(signature@ =~= decrypted@);
    ed25519_verify(remote_identity, message.as_slice(), &signature)
}

/// The client's side of a handshake that is under way.
pub struct ClientHandshake {
    identity: IdentityKeyPair,
    gateway_identity: [u8; 32],
    ephemeral_secret: [u8; 32],
    ephemeral_public: [u8; 32],
    keys: Option<SharedKeys>,
}

/// What the client does after an event.
pub enum ClientProgress {
    /// Send `frame` (the third message) and wait for the gateway's status.
    Continue { handshake: ClientHandshake, frame: Vec<u8> },
    /// The gateway confirmed: the session holds these keys.
    Finished { keys: SharedKeys },
    /// The handshake is over without a session.
    Failed { error: ClientCoreError },
}

impl ClientHandshake {
    pub closed spec fn wf(&self) -> bool {
        self.ephemeral_public@ == public_share(self.ephemeral_secret@)
    }

    pub closed spec fn identity_secret(&self) -> Seq<u8> {
        self.identity.secret@
    }

    pub closed spec fn identity_public(&self) -> Seq<u8> {
        self.identity.public@
    }

    pub closed spec fn gateway_identity(&self) -> Seq<u8> {
        self.gateway_identity@
    }

    pub closed spec fn ephemeral_secret(&self) -> Seq<u8> {
        self.ephemeral_secret@
    }

    /// The client's key share.
    pub open spec fn share(&self) -> Seq<u8> {
        public_share(self.ephemeral_secret())
    }

    /// The keys derived so far; `None` while the gateway's share is awaited.
    pub closed spec fn derived_keys(&self) -> Option<SharedKeysView> {
        match self.keys {
            Some(keys) => Some(keys@),
            None => None,
        }
    }

    /// The step whose message the client waits for: 2 or 4.
    pub open spec fn awaited_step(&self) -> u8 {
        if self.derived_keys() is None {
            2
        } else {
            4
        }
    }

    /// Whether the client waits for the gateway's status.
    pub fn awaits_status(&self) -> (waiting: bool)
        ensures
            waiting == (self.awaited_step() == 4),
    {
        self.keys.is_some()
    }

    /// Handles what the transport delivered.
    pub fn on_event(self, event: TransportEvent) -> (progress: ClientProgress)
        requires
            self.wf(),
        ensures
            event is Closed ==> progress == (ClientProgress::Failed {
                error: failed_at(self.awaited_step(), HandshakeFailure::Transport),
            }),
            event is TimedOut ==> progress == (ClientProgress::Failed {
                error: failed_at(self.awaited_step(), HandshakeFailure::Timeout),
            }),
            event matches TransportEvent::Frame(frame) ==> self.awaited_step() != 2 || {
                let gateway_share = frame@.subrange(0, 32);
                let material = frame@.subrange(32, 96);
                let dh = x25519_output(self.ephemeral_secret(), gateway_share);
                let keys = shared_keys_from(dh);
                if frame@.len() != MID_MESSAGE_SIZE {
                    progress == (ClientProgress::Failed {
                        error: failed_at(2, HandshakeFailure::MalformedFrame),
                    })
                } else if share_rejected(dh) {
                    progress == (ClientProgress::Failed {
                        error: failed_at(2, HandshakeFailure::KeyShareRejected),
                    })
                } else if !material_accepted(
                    self.gateway_identity(),
                    gateway_share,
                    self.share(),
                    keys.encryption_key,
                    material,
                ) {
                    progress == (ClientProgress::Failed {
                        error: failed_at(2, HandshakeFailure::SignatureVerification),
                    })
                } else {
                    &&& progress matches ClientProgress::Continue { handshake, frame: reply }
                    &&& handshake.wf()
                    &&& handshake.derived_keys() == Some(keys)
                    &&& handshake.identity_secret() == self.identity_secret()
                    &&& handshake.identity_public() == self.identity_public()
                    &&& handshake.gateway_identity() == self.gateway_identity()
                    &&& handshake.ephemeral_secret() == self.ephemeral_secret()
                    &&& reply@ == key_material(
                        self.identity_secret(),
                        self.share(),
                        gateway_share,
                        keys.encryption_key,
                    )
                    &&& forall|gateway_secret: Seq<u8>|
                        gateway_secret.len() == 32 && gateway_share == #[trigger] public_share(
                            gateway_secret,
                        ) ==> keys == shared_keys_from(
                            x25519_output(gateway_secret, self.share()),
                        )
                }
            },
            event matches TransportEvent::Frame(frame) ==> self.awaited_step() != 4 || {
                if frame@.len() != 1 {
                    progress == (ClientProgress::Failed {
                        error: failed_at(4, HandshakeFailure::MalformedFrame),
                    })
                } else if frame@[0] != 0 {
                    progress == (ClientProgress::Failed {
                        error: failed_at(4, HandshakeFailure::Rejected),
                    })
                } else {
                    progress matches ClientProgress::Finished { keys } && Some(keys@)
                        == self.derived_keys()
                }
            },
    {
        let step: u8 = if self.keys.is_some() {
            4
        } else {
            2
        };
        let frame = match event {
            TransportEvent::Closed => {
                return ClientProgress::Failed {
                    error: ClientCoreError::HandshakeFailed {
                        step,
                        reason: HandshakeFailure::Transport,
                    },
                };
            },
            TransportEvent::TimedOut => {
                return ClientProgress::Failed {
                    error: ClientCoreError::HandshakeFailed {
                        step,
                        reason: HandshakeFailure::Timeout,
                    },
                };
            },
            TransportEvent::Frame(frame) => frame,
        };
        match self.keys {
            Some(keys) => {
                if frame.len() != 1 {
                    return ClientProgress::Failed {
                        error: ClientCoreError::HandshakeFailed {
                            step: 4,
                            reason: HandshakeFailure::MalformedFrame,
                        },
                    };
                }
                if frame[0] != 0 {
                    return ClientProgress::Failed {
                        error: ClientCoreError::HandshakeFailed {
                            step: 4,
                            reason: HandshakeFailure::Rejected,
                        },
                    };
                }
                ClientProgress::Finished { keys }
            },
            None => {
                if frame.len() != MID_MESSAGE_SIZE {
                    return ClientProgress::Failed {
                        error: ClientCoreError::HandshakeFailed {
                            step: 2,
                            reason: HandshakeFailure::MalformedFrame,
                        },
                    };
                }
                let gateway_share = array32_at(frame.as_slice(), 0);
                let dh = x25519(&self.ephemeral_secret, &gateway_share);
                if all_zero(dh.as_slice()) {
                    return ClientProgress::Failed {
                        error: ClientCoreError::HandshakeFailed {
                            step: 2,
                            reason: HandshakeFailure::KeyShareRejected,
                        },
                    };
                }
                let keys = derive_shared_keys(&dh);
                let material = copy_range(frame.as_slice(), 32, 96);
                if !verify_material(
                    &self.gateway_identity,
                    &gateway_share,
                    &self.ephemeral_public,
                    &keys,
                    material.as_slice(),
                ) {
                    return ClientProgress::Failed {
                        error: ClientCoreError::HandshakeFailed {
                            step: 2,
                            reason: HandshakeFailure::SignatureVerification,
                        },
                    };
                }
                let reply = compute_material(
                    &self.identity.secret,
                    &self.ephemeral_public,
                    &gateway_share,
                    &keys,
                );
                let handshake = ClientHandshake {
                    identity: self.identity,
                    gateway_identity: self.gateway_identity,
                    ephemeral_secret: self.ephemeral_secret,
                    ephemeral_public: self.ephemeral_public,
                    keys: Some(keys),
                };
                ClientProgress::Continue { handshake, frame: reply }
            },
        }
    }
}

/// Starts a handshake with the gateway whose identity key is `gateway_pubkey`.
/// `ephemeral_secret` are 32 fresh random bytes. Returns the state to keep
/// and the first message to send.
pub fn client_handshake(
    identity: &IdentityKeyPair,
    gateway_pubkey: [u8; 32],
    ephemeral_secret: [u8; 32],
) -> (started: (ClientHandshake, Vec<u8>))
    ensures
        started.0.wf(),
        started.0.awaited_step() == 2,
        started.0.identity_secret() == identity.secret@,
        started.0.identity_public() == identity.public@,
        started.0.gateway_identity() == gateway_pubkey@,
        started.0.ephemeral_secret() == ephemeral_secret@,
        started.1@ == init_message(identity.public@, public_share(ephemeral_secret@)),
        started.1@.len() == INIT_MESSAGE_SIZE,
{
    let base = basepoint_bytes();
    let ephemeral_public = x25519(&ephemeral_secret, &base);
    let mut frame: Vec<u8> = Vec::new();
    append_bytes(&mut frame, identity.public.as_slice());
    append_bytes(&mut frame, ephemeral_public.as_slice());
    let handshake = ClientHandshake {
        identity: *identity,
        gateway_identity: gateway_pubkey,
        ephemeral_secret,
        ephemeral_public,
        keys: None,
    };
    (handshake, frame)
}

/// The gateway's side of a handshake that waits for the client's signature.
pub struct GatewayHandshake {
    client_identity: [u8; 32],
    client_share: [u8; 32],
    ephemeral_public: [u8; 32],
    keys: SharedKeys,
}

/// How the gateway's side ended. `status` is the fourth message, where one is sent.
pub enum GatewayProgress {
    /// The client proved its identity; `status` holds a zero.
    Finished { keys: SharedKeys, client_identity: [u8; 32], status: Vec<u8> },
    /// The handshake failed; a nonzero `status` is sent if the transport still stands.
    Failed { error: ClientCoreError, status: Option<Vec<u8>> },
}

impl GatewayHandshake {
    pub closed spec fn client_identity(&self) -> Seq<u8> {
        self.client_identity@
    }

    pub closed spec fn client_share(&self) -> Seq<u8> {
        self.client_share@
    }

    /// The gateway's key share.
    pub closed spec fn share(&self) -> Seq<u8> {
        self.ephemeral_public@
    }

    pub closed spec fn derived_keys(&self) -> SharedKeysView {
        self.keys@
    }

    /// Handles the third message, or the loss of the transport.
    pub fn on_event(self, event: TransportEvent) -> (progress: GatewayProgress)
        ensures
            event is Closed ==> progress == (GatewayProgress::Failed {
                error: failed_at(3, HandshakeFailure::Transport),
                status: None,
            }),
            event is TimedOut ==> progress == (GatewayProgress::Failed {
                error: failed_at(3, HandshakeFailure::Timeout),
                status: None,
            }),
            event matches TransportEvent::Frame(frame) ==> {
                if frame@.len() != SIGNATURE_SIZE {
                    &&& progress matches GatewayProgress::Failed { error, status }
                    &&& error == failed_at(3, HandshakeFailure::MalformedFrame)
                    &&& status is Some && status.unwrap()@ == seq![1u8]
                } else if !material_accepted(
                    self.client_identity(),
                    self.client_share(),
                    self.share(),
                    self.derived_keys().encryption_key,
                    frame@,
                ) {
                    &&& progress matches GatewayProgress::Failed { error, status }
                    &&& error == failed_at(3, HandshakeFailure::SignatureVerification)
                    &&& status is Some && status.unwrap()@ == seq![1u8]
                } else {
                    &&& progress matches GatewayProgress::Finished { keys, client_identity, status }
                    &&& keys@ == self.derived_keys()
                    &&& client_identity@ == self.client_identity()
                    &&& status@ == seq![0u8]
                }
            },
    {
        let frame = match event {
            TransportEvent::Closed => {
                return GatewayProgress::Failed {
                    error: ClientCoreError::HandshakeFailed {
                        step: 3,
                        reason: HandshakeFailure::Transport,
                    },
                    status: None,
                };
            },
            TransportEvent::TimedOut => {
                return GatewayProgress::Failed {
                    error: ClientCoreError::HandshakeFailed {
                        step: 3,
                        reason: HandshakeFailure::Timeout,
                    },
                    status: None,
                };
            },
            TransportEvent::Frame(frame) => frame,
        };
        let mut status: Vec<u8> = Vec::new();
        if frame.len() != SIGNATURE_SIZE {
            status.push(1u8);
            assert(status@ =~= seq![1u8]);
            return GatewayProgress::Failed {
                error: ClientCoreError::HandshakeFailed {
                    step: 3,
                    reason: HandshakeFailure::MalformedFrame,
                },
                status: Some(status),
            };
        }
        if !verify_material(
            &self.client_identity,
            &self.client_share,
            &self.ephemeral_public,
            &self.keys,
            frame.as_slice(),
        ) {
            status.push(1u8);
            assert(status@ =~= seq![1u8]);
            return GatewayProgress::Failed {
                error: ClientCoreError::HandshakeFailed {
                    step: 3,
                    reason: HandshakeFailure::SignatureVerification,
                },
                status: Some(status),
            };
        }
        status.push(0u8);
        assert(status@ =~= seq![0u8]);
        GatewayProgress::Finished { keys: self.keys, client_identity: self.client_identity, status }
    }
}

/// Answers a client's first message. `ephemeral_secret` are 32 fresh random
/// bytes. Returns the state to keep and the second message to send.
pub fn gateway_handshake(
    identity: &IdentityKeyPair,
    received_init_payload: Vec<u8>,
    ephemeral_secret: [u8; 32],
) -> (res: Result<(GatewayHandshake, Vec<u8>), ClientCoreError>)
    ensures
        ({
            let client_identity = received_init_payload@.subrange(0, 32);
            let client_share = received_init_payload@.subrange(32, 64);
            let dh = x25519_output(ephemeral_secret@, client_share);
            let keys = shared_keys_from(dh);
            if received_init_payload@.len() != INIT_MESSAGE_SIZE {
                res == Err::<(GatewayHandshake, Vec<u8>), ClientCoreError>(
                    failed_at(1, HandshakeFailure::MalformedFrame),
                )
            } else if share_rejected(dh) {
                res == Err::<(GatewayHandshake, Vec<u8>), ClientCoreError>(
                    failed_at(1, HandshakeFailure::KeyShareRejected),
                )
            } else {
                &&& res matches Ok((handshake, frame))
                &&& handshake.client_identity() == client_identity
                &&& handshake.client_share() == client_share
                &&& handshake.share() == public_share(ephemeral_secret@)
                &&& handshake.derived_keys() == keys
                &&& frame@ == public_share(ephemeral_secret@) + key_material(
                    identity.secret@,
                    public_share(ephemeral_secret@),
                    client_share,
                    keys.encryption_key,
                )
                &&& frame@.len() == MID_MESSAGE_SIZE
                &&& forall|client_secret: Seq<u8>|
                    client_secret.len() == 32 && client_share == #[trigger] public_share(
                        client_secret,
                    ) ==> keys == shared_keys_from(
                        x25519_output(client_secret, public_share(ephemeral_secret@)),
                    )
            }
        }),
{
    if received_init_payload.len() != INIT_MESSAGE_SIZE {
        return Err(
            ClientCoreError::HandshakeFailed { step: 1, reason: HandshakeFailure::MalformedFrame },
        );
    }
    let client_identity = array32_at(received_init_payload.as_slice(), 0);
    let client_share = array32_at(received_init_payload.as_slice(), 32);
    let dh = x25519(&ephemeral_secret, &client_share);
    if all_zero(dh.as_slice()) {
        return Err(
            ClientCoreError::HandshakeFailed {
                step: 1,
                reason: HandshakeFailure::KeyShareRejected,
            },
        );
    }
    let keys = derive_shared_keys(&dh);
    let base = basepoint_bytes();
    let ephemeral_public = x25519(&ephemeral_secret, &base);
    let material = compute_material(&identity.secret, &ephemeral_public, &client_share, &keys);
    let mut frame: Vec<u8> = Vec::new();
    append_bytes(&mut frame, ephemeral_public.as_slice());
    append_bytes(&mut frame, material.as_slice());
    let handshake = GatewayHandshake { client_identity, client_share, ephemeral_public, keys };
    Ok((handshake, frame))
}

} // verus!
