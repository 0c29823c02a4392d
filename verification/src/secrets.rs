//! Secret storage rules: which secrets count as present, and how a partial
//! update is laid over the stored values.

use vstd::prelude::*;

use crate::model::{Secrets, SecretsPatch, SecretsStatus, SecretsView};
use crate::text::{lemma_trim_idempotent, trim, trim_str, from_chars};

verus! {

/// A secret counts as present when it is set and not empty.
pub open spec fn present(v: Option<Seq<char>>) -> bool {
    match v {
        Some(s) => s.len() > 0,
        None => false,
    }
}

/// One slot after a patch: an absent value keeps the slot, an empty one
/// clears it, anything else replaces it.
pub open spec fn overlay(slot: Option<Seq<char>>, incoming: Option<Seq<char>>) -> Option<Seq<char>> {
    match incoming {
        None => slot,
        Some(v) => if v.len() == 0 { None } else { Some(v) },
    }
}

/// As `overlay`, on the trimmed incoming value.
pub open spec fn overlay_trimmed(
    slot: Option<Seq<char>>,
    incoming: Option<Seq<char>>,
) -> Option<Seq<char>> {
    match incoming {
        None => slot,
        Some(v) => if trim(v).len() == 0 { None } else { Some(trim(v)) },
    }
}

/// The secrets after `patch` is laid over `s`.
pub open spec fn patched(s: SecretsView, p: SecretsView) -> SecretsView {
    SecretsView {
        wireguard_private_key: overlay(s.wireguard_private_key, p.wireguard_private_key),
        wireguard_peer_public_key: overlay(
            s.wireguard_peer_public_key,
            p.wireguard_peer_public_key,
        ),
        wireguard_preshared_key: overlay(s.wireguard_preshared_key, p.wireguard_preshared_key),
        ui_lan_token: overlay(s.ui_lan_token, p.ui_lan_token),
        proxy_uri: overlay_trimmed(s.proxy_uri, p.proxy_uri),
    }
}

/// The presence flags of a set of secrets.
pub open spec fn status_of(s: SecretsView) -> SecretsStatus {
    SecretsStatus {
        wireguard_private_key_present: present(s.wireguard_private_key),
        wireguard_peer_public_key_present: present(s.wireguard_peer_public_key),
        wireguard_preshared_key_present: present(s.wireguard_preshared_key),
        ui_lan_token_present: present(s.ui_lan_token),
        proxy_uri_present: present(s.proxy_uri),
    }
}

fn present_secret(value: &Option<String>) -> (r: bool)
    ensures
        r == present(crate::model::opt_view(*value)),
{
    match value {
        Some(s) => !s.as_str().is_empty(),
        None => false,
    }
}

fn overlay_slot(slot: &mut Option<String>, incoming: &Option<String>)
    ensures
        crate::model::opt_view(*final(slot)) == overlay(
            crate::model::opt_view(*old(slot)),
            crate::model::opt_view(*incoming),
        ),
{
    match incoming {
        None => {},
        Some(value) => {
            if value.as_str().is_empty() {
                *slot = None;
            } else {
                *slot = Some(value.clone());
            }
        },
    }
}

fn overlay_slot_trimmed(slot: &mut Option<String>, incoming: &Option<String>)
    ensures
        crate::model::opt_view(*final(slot)) == overlay_trimmed(
            crate::model::opt_view(*old(slot)),
            crate::model::opt_view(*incoming),
        ),
{
    match incoming {
        None => {},
        Some(value) => {
            let t = trim_str(value.as_str());
            if t.len() == 0 {
                *slot = None;
            } else {
                *slot = Some(from_chars(t.as_slice()));
            }
        },
    }
}

impl Secrets {
    /// Which secrets are present, without revealing them.
    pub fn status(&self) -> (r: SecretsStatus)
        ensures
            r == status_of(self@),
    {
        SecretsStatus {
            wireguard_private_key_present: present_secret(&self.wireguard_private_key),
            wireguard_peer_public_key_present: present_secret(&self.wireguard_peer_public_key),
            wireguard_preshared_key_present: present_secret(&self.wireguard_preshared_key),
            ui_lan_token_present: present_secret(&self.ui_lan_token),
            proxy_uri_present: present_secret(&self.proxy_uri),
        }
    }

    /// Lays a partial update over the stored secrets.
    pub fn apply_patch(&mut self, patch: &SecretsPatch)
        ensures
            final(self)@ == patched(old(self)@, patch@),
    {
        overlay_slot(&mut self.wireguard_private_key, &patch.wireguard_private_key);
        overlay_slot(&mut self.wireguard_peer_public_key, &patch.wireguard_peer_public_key);
        overlay_slot(&mut self.wireguard_preshared_key, &patch.wireguard_preshared_key);
        overlay_slot(&mut self.ui_lan_token, &patch.ui_lan_token);
        overlay_slot_trimmed(&mut self.proxy_uri, &patch.proxy_uri);
    }
}

/// A patch that sets nothing leaves the secrets as they were.
pub proof fn lemma_empty_patch_keeps_secrets(s: SecretsView)
    ensures
        patched(s, SecretsView::empty()) == s,
{
}

/// Applying the same patch twice gives what applying it once gives.
pub proof fn lemma_patch_idempotent(s: SecretsView, p: SecretsView)
    ensures
        patched(patched(s, p), p) == patched(s, p),
{
    if let Some(v) = p.proxy_uri {
        lemma_trim_idempotent(v);
    }
}

/// After a patch, a field that the patch sets to a non-blank value is
/// present, one that it sets blank is absent, and one it omits keeps its
/// presence.
pub proof fn lemma_patch_status(s: SecretsView, p: SecretsView)
    ensures
        status_of(patched(s, p)).ui_lan_token_present == match p.ui_lan_token {
            None => present(s.ui_lan_token),
            Some(v) => v.len() > 0,
        },
        status_of(patched(s, p)).wireguard_private_key_present == match p.wireguard_private_key {
            None => present(s.wireguard_private_key),
            Some(v) => v.len() > 0,
        },
        status_of(patched(s, p)).wireguard_peer_public_key_present
            == match p.wireguard_peer_public_key {
            None => present(s.wireguard_peer_public_key),
            Some(v) => v.len() > 0,
        },
        status_of(patched(s, p)).wireguard_preshared_key_present
            == match p.wireguard_preshared_key {
            None => present(s.wireguard_preshared_key),
            Some(v) => v.len() > 0,
        },
        status_of(patched(s, p)).proxy_uri_present == match p.proxy_uri {
            None => present(s.proxy_uri),
            Some(v) => trim(v).len() > 0,
        },
{
}

} // verus!
