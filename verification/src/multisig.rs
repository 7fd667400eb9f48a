use vstd::prelude::*;
use crate::msgpack::{
    Canon, map_hdr, mp_str, str_ok, uint_bytes, vec_bytes, vec_ok, push_key, push_mp_str,
    push_map_hdr_small, push_uint, push_vec,
};

verus! {

/// One collected inner signature of a multi-sig flow, as hashed into the
/// multi-sig action hash.
pub struct MsSignature {
    pub r: String,
    pub s: String,
    pub v: u8,
}

impl Canon for MsSignature {
    open spec fn canon_bytes(&self) -> Seq<u8> {
        map_hdr(3) + mp_str("r"@) + mp_str(self.r@) + mp_str("s"@) + mp_str(self.s@) + mp_str("v"@)
            + uint_bytes(self.v as u64)
    }

    open spec fn canon_ok(&self) -> bool {
        str_ok(self.r@) && str_ok(self.s@)
    }

    fn push_canon(&self, out: &mut Vec<u8>) -> (ok: bool) {
        proof {
            reveal_strlit("r");
            reveal_strlit("s");
            reveal_strlit("v");
        }
        push_map_hdr_small(out, 3);
        push_key(out, "r");
        if !push_mp_str(out, self.r.as_str()) {
            return false;
        }
        push_key(out, "s");
        if !push_mp_str(out, self.s.as_str()) {
            return false;
        }
        push_key(out, "v");
        push_uint(out, self.v as u64);
        assert(out@ =~= old(out)@ + self.canon_bytes());
        true
    }
}

/// The inner action description of a multi-sig payload.
pub struct MsPayloadAction {
    pub type_field: String,
    pub time: u64,
}

impl MsPayloadAction {
    pub open spec fn canon_bytes(self) -> Seq<u8> {
        map_hdr(2) + mp_str("type"@) + mp_str(self.type_field@) + mp_str("time"@) + uint_bytes(
            self.time,
        )
    }

    pub open spec fn canon_ok(self) -> bool {
        str_ok(self.type_field@)
    }

    pub fn push_canon(&self, out: &mut Vec<u8>) -> (ok: bool)
        ensures
            ok == self.canon_ok(),
            ok ==> final(out)@ == old(out)@ + self.canon_bytes(),
    {
        proof {
            reveal_strlit("type");
            reveal_strlit("time");
        }
        push_map_hdr_small(out, 2);
        push_key(out, "type");
        if !push_mp_str(out, self.type_field.as_str()) {
            return false;
        }
        push_key(out, "time");
        push_uint(out, self.time);
        assert(out@ =~= old(out)@ + self.canon_bytes());
        true
    }
}

/// The payload of a multi-sig envelope: the multi-sig user, the outer signer
/// and the inner action description.
pub struct MsPayload {
    pub multi_sig_user: String,
    pub outer_signer: String,
    pub action: MsPayloadAction,
}

impl MsPayload {
    pub open spec fn canon_bytes(self) -> Seq<u8> {
        map_hdr(3) + mp_str("multiSigUser"@) + mp_str(self.multi_sig_user@) + mp_str(
            "outerSigner"@,
        ) + mp_str(self.outer_signer@) + mp_str("action"@) + self.action.canon_bytes()
    }

    pub open spec fn canon_ok(self) -> bool {
        str_ok(self.multi_sig_user@) && str_ok(self.outer_signer@) && self.action.canon_ok()
    }

    pub fn push_canon(&self, out: &mut Vec<u8>) -> (ok: bool)
        ensures
            ok == self.canon_ok(),
            ok ==> final(out)@ == old(out)@ + self.canon_bytes(),
    {
        proof {
            reveal_strlit("multiSigUser");
            reveal_strlit("outerSigner");
            reveal_strlit("action");
        }
        push_map_hdr_small(out, 3);
        push_key(out, "multiSigUser");
        if !push_mp_str(out, self.multi_sig_user.as_str()) {
            return false;
        }
        push_key(out, "outerSigner");
        if !push_mp_str(out, self.outer_signer.as_str()) {
            return false;
        }
        push_key(out, "action");
        if !self.action.push_canon(out) {
            return false;
        }
        assert(out@ =~= old(out)@ + self.canon_bytes());
        true
    }
}

/// The deterministic multi-sig action record: the signature chain id, the
/// collected inner signatures and the payload, hashed through the same
/// pipeline as a plain action.
pub struct MsAction {
    pub signature_chain_id: String,
    pub signatures: Vec<MsSignature>,
    pub payload: MsPayload,
}

impl MsAction {
    pub open spec fn canon_bytes(self) -> Seq<u8> {
        map_hdr(3) + mp_str("signatureChainId"@) + mp_str(self.signature_chain_id@) + mp_str(
            "signatures"@,
        ) + vec_bytes(self.signatures@) + mp_str("payload"@) + self.payload.canon_bytes()
    }

    pub open spec fn canon_ok(self) -> bool {
        str_ok(self.signature_chain_id@) && vec_ok(self.signatures@) && self.payload.canon_ok()
    }

    pub fn push_canon(&self, out: &mut Vec<u8>) -> (ok: bool)
        ensures
            ok == self.canon_ok(),
            ok ==> final(out)@ == old(out)@ + self.canon_bytes(),
    {
        proof {
            reveal_strlit("signatureChainId");
            reveal_strlit("signatures");
            reveal_strlit("payload");
        }
        push_map_hdr_small(out, 3);
        push_key(out, "signatureChainId");
        if !push_mp_str(out, self.signature_chain_id.as_str()) {
            return false;
        }
        push_key(out, "signatures");
        if !push_vec(&self.signatures, out) {
            return false;
        }
        push_key(out, "payload");
        if !self.payload.push_canon(out) {
            return false;
        }
        assert(out@ =~= old(out)@ + self.canon_bytes());
        true
    }
}

} // verus!
