use vstd::prelude::*;
use vstd::utf8::encode_utf8;
use vstd::string::StrSliceExecFns;
use crate::action::Address;
use crate::bytesfmt::{be8, push_be8, push_bytes};
use crate::crypto::{keccak_of, keccak256};

verus! {

/// A run of zero bytes.
pub open spec fn zero_seq(n: nat) -> Seq<u8> {
    Seq::new(n, |i: int| 0u8)
}

/// The 32-byte ABI word of a 64-bit unsigned integer: left-padded with zeros.
pub open spec fn word_u64(n: u64) -> Seq<u8> {
    zero_seq(24) + be8(n)
}

/// The 32-byte ABI word of a 20-byte address: 12 zero bytes, then the raw
/// address bytes.
pub open spec fn word_addr(a: Seq<u8>) -> Seq<u8> {
    zero_seq(12) + a
}

/// The Keccak-256 word of a string's UTF-8 bytes, the EIP-712 encoding of a
/// dynamic string value.
pub open spec fn str_hash_word(s: Seq<char>) -> Seq<u8> {
    keccak_of(encode_utf8(s))
}

/// The EIP-712 domain separator of this protocol's shape: name, version,
/// numeric chain id, and the zero verifying contract address.
pub open spec fn domain_sep(name: Seq<char>, version: Seq<char>, chain_id: u64) -> Seq<u8> {
    keccak_of(
        str_hash_word(
            "EIP712Domain(string name,string version,uint256 chainId,address verifyingContract)"@,
        ) + str_hash_word(name) + str_hash_word(version) + word_u64(chain_id) + zero_seq(32),
    )
}

/// The final EIP-712 signing digest: Keccak-256 over exactly 66 bytes, the
/// prefix 0x19 0x01, the domain separator and the struct hash.
pub open spec fn eip712_digest(ds: Seq<u8>, sh: Seq<u8>) -> Seq<u8> {
    keccak_of(seq![0x19u8, 0x01u8] + ds + sh)
}

pub fn push_zeros(out: &mut Vec<u8>, n: usize)
    ensures
        final(out)@ == old(out)@ + zero_seq(n as nat),
{
    let mut i: usize = 0;
    while i < n
        invariant
            i <= n,
            out@.len() == old(out)@.len() + i,
            out@.subrange(0, old(out)@.len() as int) == old(out)@,
            forall|j: int| old(out)@.len() <= j < out@.len() ==> out@[j] == 0u8,
        decreases n - i,
    {
        out.push(0);
        assert(out@.subrange(0, old(out)@.len() as int) =~= old(out)@);
        i += 1;
    }
    assert(out@ =~= old(out)@ + zero_seq(n as nat));
}

/// Appends the ABI word of a 64-bit unsigned integer.
pub fn push_word_u64(out: &mut Vec<u8>, n: u64)
    ensures
        final(out)@ == old(out)@ + word_u64(n),
{
    push_zeros(out, 24);
    push_be8(out, n);
    assert(out@ =~= old(out)@ + word_u64(n));
}

/// Appends the ABI word of a 20-byte address.
pub fn push_word_addr(out: &mut Vec<u8>, a: &Address)
    ensures
        final(out)@ == old(out)@ + word_addr(a.bytes@),
{
    push_zeros(out, 12);
    push_bytes(out, &a.bytes);
    assert(out@ =~= old(out)@ + word_addr(a.bytes@));
}

/// Appends the Keccak-256 word of a string's UTF-8 bytes.
pub fn push_str_hash(out: &mut Vec<u8>, s: &str)
    ensures
        final(out)@ == old(out)@ + str_hash_word(s@),
{
    let bytes = s.as_bytes_vec();
    let h = keccak256(&bytes);
    push_bytes(out, &h);
    assert(out@ =~= old(out)@ + str_hash_word(s@));
}

/// Computes a domain separator from a name, a version and a chain id, with
/// the zero address as verifying contract.
pub fn domain_separator(name: &str, version: &str, chain_id: u64) -> (r: Vec<u8>)
    ensures
        r@ == domain_sep(name@, version@, chain_id),
        r@.len() == 32,
{
    let mut buf: Vec<u8> = Vec::new();
    push_str_hash(
        &mut buf,
        "EIP712Domain(string name,string version,uint256 chainId,address verifyingContract)",
    );
    push_str_hash(&mut buf, name);
    push_str_hash(&mut buf, version);
    push_word_u64(&mut buf, chain_id);
    push_zeros(&mut buf, 32);
    assert(buf@ =~= str_hash_word(
        "EIP712Domain(string name,string version,uint256 chainId,address verifyingContract)"@,
    ) + str_hash_word(name@) + str_hash_word(version@) + word_u64(chain_id) + zero_seq(32));
    keccak256(&buf)
}

/// The transaction domain of this protocol: "HyperliquidSignTransaction",
/// version "1", the given chain id and the zero verifying contract.
pub fn tx_domain(chain_id: u64) -> (r: Vec<u8>)
    ensures
        r@ == domain_sep("HyperliquidSignTransaction"@, "1"@, chain_id),
        r@.len() == 32,
{
    domain_separator("HyperliquidSignTransaction", "1", chain_id)
}

/// Computes the final EIP-712 signing digest from a domain separator and a
/// struct hash.
pub fn signing_digest(ds: &Vec<u8>, sh: &Vec<u8>) -> (r: Vec<u8>)
    ensures
        r@ == eip712_digest(ds@, sh@),
        r@.len() == 32,
{
    let mut buf: Vec<u8> = Vec::new();
    buf.push(0x19);
    buf.push(0x01);
    push_bytes(&mut buf, ds);
    push_bytes(&mut buf, sh);
    assert(buf@ =~= seq![0x19u8, 0x01u8] + ds@ + sh@);
    keccak256(&buf)
}

// ===== The fixed message shapes =====

pub struct UsdSend {
    pub signature_chain_id: u64,
    pub hyperliquid_chain: String,
    pub destination: String,
    pub amount: String,
    pub time: u64,
}

impl UsdSend {
    pub open spec fn spec_domain(self) -> Seq<u8> {
        domain_sep("HyperliquidSignTransaction"@, "1"@, self.signature_chain_id)
    }

    pub open spec fn spec_struct_hash(self) -> Seq<u8> {
        keccak_of(
            str_hash_word(
                "HyperliquidTransaction:UsdSend(string hyperliquidChain,string destination,string amount,uint64 time)"@,
            ) + str_hash_word(self.hyperliquid_chain@) + str_hash_word(self.destination@)
                + str_hash_word(self.amount@) + word_u64(self.time),
        )
    }

    pub fn domain(&self) -> (r: Vec<u8>)
        ensures
            r@ == self.spec_domain(),
            r@.len() == 32,
    {
        tx_domain(self.signature_chain_id)
    }

    pub fn struct_hash(&self) -> (r: Vec<u8>)
        ensures
            r@ == self.spec_struct_hash(),
            r@.len() == 32,
    {
        let mut buf: Vec<u8> = Vec::new();
        push_str_hash(
            &mut buf,
            "HyperliquidTransaction:UsdSend(string hyperliquidChain,string destination,string amount,uint64 time)",
        );
        push_str_hash(&mut buf, self.hyperliquid_chain.as_str());
        push_str_hash(&mut buf, self.destination.as_str());
        push_str_hash(&mut buf, self.amount.as_str());
        push_word_u64(&mut buf, self.time);
        keccak256(&buf)
    }

    pub fn eip712_signing_hash(&self) -> (r: Vec<u8>)
        ensures
            r@ == eip712_digest(self.spec_domain(), self.spec_struct_hash()),
            r@.len() == 32,
    {
        let ds = self.domain();
        let sh = self.struct_hash();
        signing_digest(&ds, &sh)
    }
}

pub struct Withdraw3 {
    pub signature_chain_id: u64,
    pub hyperliquid_chain: String,
    pub destination: String,
    pub amount: String,
    pub time: u64,
}

impl Withdraw3 {
    pub open spec fn spec_domain(self) -> Seq<u8> {
        domain_sep("HyperliquidSignTransaction"@, "1"@, self.signature_chain_id)
    }

    pub open spec fn spec_struct_hash(self) -> Seq<u8> {
        keccak_of(
            str_hash_word(
                "HyperliquidTransaction:Withdraw(string hyperliquidChain,string destination,string amount,uint64 time)"@,
            ) + str_hash_word(self.hyperliquid_chain@) + str_hash_word(self.destination@)
                + str_hash_word(self.amount@) + word_u64(self.time),
        )
    }

    pub fn domain(&self) -> (r: Vec<u8>)
        ensures
            r@ == self.spec_domain(),
            r@.len() == 32,
    {
        tx_domain(self.signature_chain_id)
    }

    pub fn struct_hash(&self) -> (r: Vec<u8>)
        ensures
            r@ == self.spec_struct_hash(),
            r@.len() == 32,
    {
        let mut buf: Vec<u8> = Vec::new();
        push_str_hash(
            &mut buf,
            "HyperliquidTransaction:Withdraw(string hyperliquidChain,string destination,string amount,uint64 time)",
        );
        push_str_hash(&mut buf, self.hyperliquid_chain.as_str());
        push_str_hash(&mut buf, self.destination.as_str());
        push_str_hash(&mut buf, self.amount.as_str());
        push_word_u64(&mut buf, self.time);
        keccak256(&buf)
    }

    pub fn eip712_signing_hash(&self) -> (r: Vec<u8>)
        ensures
            r@ == eip712_digest(self.spec_domain(), self.spec_struct_hash()),
            r@.len() == 32,
    {
        let ds = self.domain();
        let sh = self.struct_hash();
        signing_digest(&ds, &sh)
    }
}

pub struct SpotSend {
    pub signature_chain_id: u64,
    pub hyperliquid_chain: String,
    pub destination: String,
    pub token: String,
    pub amount: String,
    pub time: u64,
}

impl SpotSend {
    pub open spec fn spec_domain(self) -> Seq<u8> {
        domain_sep("HyperliquidSignTransaction"@, "1"@, self.signature_chain_id)
    }

    pub open spec fn spec_struct_hash(self) -> Seq<u8> {
        keccak_of(
            str_hash_word(
                "HyperliquidTransaction:SpotSend(string hyperliquidChain,string destination,string token,string amount,uint64 time)"@,
            ) + str_hash_word(self.hyperliquid_chain@) + str_hash_word(self.destination@)
                + str_hash_word(self.token@) + str_hash_word(self.amount@) + word_u64(self.time),
        )
    }

    pub fn domain(&self) -> (r: Vec<u8>)
        ensures
            r@ == self.spec_domain(),
            r@.len() == 32,
    {
        tx_domain(self.signature_chain_id)
    }

    pub fn struct_hash(&self) -> (r: Vec<u8>)
        ensures
            r@ == self.spec_struct_hash(),
            r@.len() == 32,
    {
        let mut buf: Vec<u8> = Vec::new();
        push_str_hash(
            &mut buf,
            "HyperliquidTransaction:SpotSend(string hyperliquidChain,string destination,string token,string amount,uint64 time)",
        );
        push_str_hash(&mut buf, self.hyperliquid_chain.as_str());
        push_str_hash(&mut buf, self.destination.as_str());
        push_str_hash(&mut buf, self.token.as_str());
        push_str_hash(&mut buf, self.amount.as_str());
        push_word_u64(&mut buf, self.time);
        keccak256(&buf)
    }

    pub fn eip712_signing_hash(&self) -> (r: Vec<u8>)
        ensures
            r@ == eip712_digest(self.spec_domain(), self.spec_struct_hash()),
            r@.len() == 32,
    {
        let ds = self.domain();
        let sh = self.struct_hash();
        signing_digest(&ds, &sh)
    }
}

pub struct ApproveBuilderFee {
    pub signature_chain_id: u64,
    pub hyperliquid_chain: String,
    pub builder: Address,
    pub max_fee_rate: String,
    pub nonce: u64,
}

impl ApproveBuilderFee {
    pub open spec fn spec_domain(self) -> Seq<u8> {
        domain_sep("HyperliquidSignTransaction"@, "1"@, self.signature_chain_id)
    }

    pub open spec fn spec_struct_hash(self) -> Seq<u8> {
        keccak_of(
            str_hash_word(
                "HyperliquidTransaction:ApproveBuilderFee(string hyperliquidChain,string maxFeeRate,address builder,uint64 nonce)"@,
            ) + str_hash_word(self.hyperliquid_chain@) + str_hash_word(self.max_fee_rate@)
                + word_addr(self.builder.bytes@) + word_u64(self.nonce),
        )
    }

    pub fn domain(&self) -> (r: Vec<u8>)
        ensures
            r@ == self.spec_domain(),
            r@.len() == 32,
    {
        tx_domain(self.signature_chain_id)
    }

    pub fn struct_hash(&self) -> (r: Vec<u8>)
        ensures
            r@ == self.spec_struct_hash(),
            r@.len() == 32,
    {
        let mut buf: Vec<u8> = Vec::new();
        push_str_hash(
            &mut buf,
            "HyperliquidTransaction:ApproveBuilderFee(string hyperliquidChain,string maxFeeRate,address builder,uint64 nonce)",
        );
        push_str_hash(&mut buf, self.hyperliquid_chain.as_str());
        push_str_hash(&mut buf, self.max_fee_rate.as_str());
        push_word_addr(&mut buf, &self.builder);
        push_word_u64(&mut buf, self.nonce);
        keccak256(&buf)
    }

    pub fn eip712_signing_hash(&self) -> (r: Vec<u8>)
        ensures
            r@ == eip712_digest(self.spec_domain(), self.spec_struct_hash()),
            r@.len() == 32,
    {
        let ds = self.domain();
        let sh = self.struct_hash();
        signing_digest(&ds, &sh)
    }
}

pub struct ApproveAgent {
    pub signature_chain_id: u64,
    pub hyperliquid_chain: String,
    pub agent_address: Address,
    pub agent_name: Option<String>,
    pub nonce: u64,
}

impl ApproveAgent {
    pub open spec fn spec_domain(self) -> Seq<u8> {
        domain_sep("HyperliquidSignTransaction"@, "1"@, self.signature_chain_id)
    }

    /// The agent-name word: the hash of the name, or of the empty string when
    /// the name is absent.
    pub open spec fn spec_name_word(self) -> Seq<u8> {
        match self.agent_name {
            Option::Some(n) => str_hash_word(n@),
            Option::None => str_hash_word(""@),
        }
    }

    pub open spec fn spec_struct_hash(self) -> Seq<u8> {
        keccak_of(
            str_hash_word(
                "HyperliquidTransaction:ApproveAgent(string hyperliquidChain,address agentAddress,string agentName,uint64 nonce)"@,
            ) + str_hash_word(self.hyperliquid_chain@) + word_addr(self.agent_address.bytes@)
                + self.spec_name_word() + word_u64(self.nonce),
        )
    }

    pub fn domain(&self) -> (r: Vec<u8>)
        ensures
            r@ == self.spec_domain(),
            r@.len() == 32,
    {
        tx_domain(self.signature_chain_id)
    }

    pub fn struct_hash(&self) -> (r: Vec<u8>)
        ensures
            r@ == self.spec_struct_hash(),
            r@.len() == 32,
    {
        let mut buf: Vec<u8> = Vec::new();
        push_str_hash(
            &mut buf,
            "HyperliquidTransaction:ApproveAgent(string hyperliquidChain,address agentAddress,string agentName,uint64 nonce)",
        );
        push_str_hash(&mut buf, self.hyperliquid_chain.as_str());
        push_word_addr(&mut buf, &self.agent_address);
        match &self.agent_name {
            Option::Some(n) => push_str_hash(&mut buf, n.as_str()),
            Option::None => push_str_hash(&mut buf, ""),
        }
        push_word_u64(&mut buf, self.nonce);
        keccak256(&buf)
    }

    pub fn eip712_signing_hash(&self) -> (r: Vec<u8>)
        ensures
            r@ == eip712_digest(self.spec_domain(), self.spec_struct_hash()),
            r@.len() == 32,
    {
        let ds = self.domain();
        let sh = self.struct_hash();
        signing_digest(&ds, &sh)
    }
}

/// The outer EIP-712 message of a multi-sig send: it wraps the multi-sig
/// action hash computed by the action hasher.
pub struct SendMultiSig {
    pub signature_chain_id: u64,
    pub hyperliquid_chain: String,
    pub multi_sig_action_hash: Vec<u8>,
    pub nonce: u64,
}

impl SendMultiSig {
    pub open spec fn wf(self) -> bool {
        self.multi_sig_action_hash@.len() == 32
    }

    pub open spec fn spec_domain(self) -> Seq<u8> {
        domain_sep("HyperliquidSignTransaction"@, "1"@, self.signature_chain_id)
    }

    pub open spec fn spec_struct_hash(self) -> Seq<u8> {
        keccak_of(
            str_hash_word(
                "HyperliquidTransaction:SendMultiSig(string hyperliquidChain,bytes32 multiSigActionHash,uint64 nonce)"@,
            ) + str_hash_word(self.hyperliquid_chain@) + self.multi_sig_action_hash@ + word_u64(
                self.nonce,
            ),
        )
    }

    pub fn domain(&self) -> (r: Vec<u8>)
        ensures
            r@ == self.spec_domain(),
            r@.len() == 32,
    {
        tx_domain(self.signature_chain_id)
    }

    pub fn struct_hash(&self) -> (r: Vec<u8>)
        requires
            self.wf(),
        ensures
            r@ == self.spec_struct_hash(),
            r@.len() == 32,
    {
        let mut buf: Vec<u8> = Vec::new();
        push_str_hash(
            &mut buf,
            "HyperliquidTransaction:SendMultiSig(string hyperliquidChain,bytes32 multiSigActionHash,uint64 nonce)",
        );
        push_str_hash(&mut buf, self.hyperliquid_chain.as_str());
        push_bytes(&mut buf, &self.multi_sig_action_hash);
        push_word_u64(&mut buf, self.nonce);
        keccak256(&buf)
    }

    pub fn eip712_signing_hash(&self) -> (r: Vec<u8>)
        requires
            self.wf(),
        ensures
            r@ == eip712_digest(self.spec_domain(), self.spec_struct_hash()),
            r@.len() == 32,
    {
        let ds = self.domain();
        let sh = self.struct_hash();
        signing_digest(&ds, &sh)
    }
}

/// The L1 agent message: its domain is the fixed "Exchange" domain with the
/// network id 1337, not the protocol's transaction chain id; its source field
/// is "a" on mainnet and "b" otherwise.
pub struct Agent {
    pub source: String,
    pub connection_id: Vec<u8>,
}

impl Agent {
    pub open spec fn wf(self) -> bool {
        self.connection_id@.len() == 32
    }

    pub open spec fn spec_domain(self) -> Seq<u8> {
        domain_sep("Exchange"@, "1"@, 1337)
    }

    pub open spec fn spec_struct_hash(self) -> Seq<u8> {
        keccak_of(
            str_hash_word("Agent(string source,bytes32 connectionId)"@) + str_hash_word(
                self.source@,
            ) + self.connection_id@,
        )
    }

    pub fn domain(&self) -> (r: Vec<u8>)
        ensures
            r@ == self.spec_domain(),
            r@.len() == 32,
    {
        domain_separator("Exchange", "1", 1337)
    }

    pub fn struct_hash(&self) -> (r: Vec<u8>)
        requires
            self.wf(),
        ensures
            r@ == self.spec_struct_hash(),
            r@.len() == 32,
    {
        let mut buf: Vec<u8> = Vec::new();
        push_str_hash(&mut buf, "Agent(string source,bytes32 connectionId)");
        push_str_hash(&mut buf, self.source.as_str());
        push_bytes(&mut buf, &self.connection_id);
        keccak256(&buf)
    }

    pub fn eip712_signing_hash(&self) -> (r: Vec<u8>)
        requires
            self.wf(),
        ensures
            r@ == eip712_digest(self.spec_domain(), self.spec_struct_hash()),
            r@.len() == 32,
    {
        let ds = self.domain();
        let sh = self.struct_hash();
        signing_digest(&ds, &sh)
    }
}

} // verus!
