use vstd::prelude::*;
use crate::msgpack::{
    Canon, map_hdr, mp, mp_bool, mp_pairs, mp_str, bin_hdr, str_ok, uint_bytes, sint_bytes,
    vec_bytes, vec_ok, push_key, push_mp_bool, push_mp_str, push_mp_bin, push_map_hdr_small,
    push_uint, push_sint, push_vec, Value,
};

verus! {

/// A 20-byte account address held as raw bytes.
pub struct Address {
    pub bytes: Vec<u8>,
}

impl Address {
    /// Well-formed: exactly 20 bytes.
    pub open spec fn wf(&self) -> bool {
        self.bytes@.len() == 20
    }

    pub fn new(bytes: Vec<u8>) -> (r: Address)
        requires
            bytes@.len() == 20,
        ensures
            r.wf(),
            r.bytes@ == bytes@,
    {
        Address { bytes }
    }

}

// ===== Order placement =====

pub struct Limit {
    pub tif: String,
}

impl Limit {
    pub open spec fn canon_bytes(self) -> Seq<u8> {
        map_hdr(1) + mp_str("tif"@) + mp_str(self.tif@)
    }

    pub open spec fn canon_ok(self) -> bool {
        str_ok(self.tif@)
    }

    pub fn push_canon(&self, out: &mut Vec<u8>) -> (ok: bool)
        ensures
            ok == self.canon_ok(),
            ok ==> final(out)@ == old(out)@ + self.canon_bytes(),
    {
        proof {
            reveal_strlit("tif");
        }
        push_map_hdr_small(out, 1);
        push_key(out, "tif");
        if !push_mp_str(out, self.tif.as_str()) {
            return false;
        }
        assert(out@ =~= old(out)@ + self.canon_bytes());
        true
    }
}

pub struct Trigger {
    pub is_market: bool,
    pub trigger_px: String,
    pub tpsl: String,
}

impl Trigger {
    pub open spec fn canon_bytes(self) -> Seq<u8> {
        map_hdr(3) + mp_str("isMarket"@) + mp_bool(self.is_market) + mp_str("triggerPx"@)
            + mp_str(self.trigger_px@) + mp_str("tpsl"@) + mp_str(self.tpsl@)
    }

    pub open spec fn canon_ok(self) -> bool {
        str_ok(self.trigger_px@) && str_ok(self.tpsl@)
    }

    pub fn push_canon(&self, out: &mut Vec<u8>) -> (ok: bool)
        ensures
            ok == self.canon_ok(),
            ok ==> final(out)@ == old(out)@ + self.canon_bytes(),
    {
        proof {
            reveal_strlit("isMarket");
            reveal_strlit("triggerPx");
            reveal_strlit("tpsl");
        }
        push_map_hdr_small(out, 3);
        push_key(out, "isMarket");
        push_mp_bool(out, self.is_market);
        push_key(out, "triggerPx");
        if !push_mp_str(out, self.trigger_px.as_str()) {
            return false;
        }
        push_key(out, "tpsl");
        if !push_mp_str(out, self.tpsl.as_str()) {
            return false;
        }
        assert(out@ =~= old(out)@ + self.canon_bytes());
        true
    }
}

/// An order type: a limit order with a time-in-force, or a trigger order.
pub enum Order {
    Limit(Limit),
    Trigger(Trigger),
}

impl Order {
    pub open spec fn canon_bytes(self) -> Seq<u8> {
        match self {
            Order::Limit(l) => map_hdr(1) + mp_str("limit"@) + l.canon_bytes(),
            Order::Trigger(t) => map_hdr(1) + mp_str("trigger"@) + t.canon_bytes(),
        }
    }

    pub open spec fn canon_ok(self) -> bool {
        match self {
            Order::Limit(l) => l.canon_ok(),
            Order::Trigger(t) => t.canon_ok(),
        }
    }

    pub fn push_canon(&self, out: &mut Vec<u8>) -> (ok: bool)
        ensures
            ok == self.canon_ok(),
            ok ==> final(out)@ == old(out)@ + self.canon_bytes(),
    {
        match self {
            Order::Limit(l) => {
                proof {
                    reveal_strlit("limit");
                }
                push_map_hdr_small(out, 1);
                push_key(out, "limit");
                if !l.push_canon(out) {
                    return false;
                }
                assert(out@ =~= old(out)@ + self.canon_bytes());
                true
            }
            Order::Trigger(t) => {
                proof {
                    reveal_strlit("trigger");
                }
                push_map_hdr_small(out, 1);
                push_key(out, "trigger");
                if !t.push_canon(out) {
                    return false;
                }
                assert(out@ =~= old(out)@ + self.canon_bytes());
                true
            }
        }
    }
}

/// One order of an order batch. Serialized key names are the protocol's fixed
/// short forms; the optional client id is omitted entirely when absent.
pub struct OrderRequest {
    pub asset: u32,
    pub is_buy: bool,
    pub limit_px: String,
    pub sz: String,
    pub reduce_only: bool,
    pub order_type: Order,
    pub cloid: Option<String>,
}

impl OrderRequest {
    /// The first half of the entries: the keys "a" to "s".
    pub open spec fn head_bytes(self) -> Seq<u8> {
        mp_str("a"@) + uint_bytes(self.asset as u64) + mp_str("b"@) + mp_bool(self.is_buy)
            + mp_str("p"@) + mp_str(self.limit_px@) + mp_str("s"@) + mp_str(self.sz@)
    }

    /// The second half of the entries: the keys "r", "t" and the optional "c".
    pub open spec fn tail_bytes(self) -> Seq<u8> {
        mp_str("r"@) + mp_bool(self.reduce_only) + mp_str("t"@) + self.order_type.canon_bytes()
            + (match self.cloid {
            Option::Some(c) => mp_str("c"@) + mp_str(c@),
            Option::None => Seq::empty(),
        })
    }
}

impl Canon for OrderRequest {
    open spec fn canon_bytes(&self) -> Seq<u8> {
        map_hdr(
            if self.cloid is Some {
                7nat
            } else {
                6nat
            },
        ) + self.head_bytes() + self.tail_bytes()
    }

    open spec fn canon_ok(&self) -> bool {
        str_ok(self.limit_px@) && str_ok(self.sz@) && self.order_type.canon_ok() && (match self
            .cloid {
            Option::Some(c) => str_ok(c@),
            Option::None => true,
        })
    }

    #[verifier::rlimit(100)]
    fn push_canon(&self, out: &mut Vec<u8>) -> (ok: bool) {
        proof {
            reveal_strlit("a");
            reveal_strlit("b");
            reveal_strlit("p");
            reveal_strlit("s");
            reveal_strlit("r");
            reveal_strlit("t");
            reveal_strlit("c");
        }
        let n: u8 = if self.cloid.is_some() { 7 } else { 6 };
        push_map_hdr_small(out, n);
        let ghost base: Seq<u8> = out@;
        assert(base == old(out)@ + map_hdr(
            if self.cloid is Some {
                7nat
            } else {
                6nat
            },
        ));
        push_key(out, "a");
        push_uint(out, self.asset as u64);
        push_key(out, "b");
        push_mp_bool(out, self.is_buy);
        push_key(out, "p");
        if !push_mp_str(out, self.limit_px.as_str()) {
            return false;
        }
        push_key(out, "s");
        if !push_mp_str(out, self.sz.as_str()) {
            return false;
        }
        assert(out@ =~= base + self.head_bytes());
        let ghost mid: Seq<u8> = out@;
        push_key(out, "r");
        push_mp_bool(out, self.reduce_only);
        push_key(out, "t");
        if !self.order_type.push_canon(out) {
            return false;
        }
        match &self.cloid {
            Option::Some(c) => {
                push_key(out, "c");
                if !push_mp_str(out, c.as_str()) {
                    return false;
                }
                assert(out@ =~= mid + self.tail_bytes());
            }
            Option::None => {
                assert(out@ =~= mid + self.tail_bytes());
            }
        }
        assert(out@ =~= old(out)@ + self.canon_bytes());
        true
    }
}

pub struct BuilderInfo {
    pub builder: String,
    pub fee: u64,
}

impl BuilderInfo {
    pub open spec fn canon_bytes(self) -> Seq<u8> {
        map_hdr(2) + mp_str("b"@) + mp_str(self.builder@) + mp_str("f"@) + uint_bytes(self.fee)
    }

    pub open spec fn canon_ok(self) -> bool {
        str_ok(self.builder@)
    }

    pub fn push_canon(&self, out: &mut Vec<u8>) -> (ok: bool)
        ensures
            ok == self.canon_ok(),
            ok ==> final(out)@ == old(out)@ + self.canon_bytes(),
    {
        proof {
            reveal_strlit("b");
            reveal_strlit("f");
        }
        push_map_hdr_small(out, 2);
        push_key(out, "b");
        if !push_mp_str(out, self.builder.as_str()) {
            return false;
        }
        push_key(out, "f");
        push_uint(out, self.fee);
        assert(out@ =~= old(out)@ + self.canon_bytes());
        true
    }
}

// ===== Batch payloads and the other exchange actions =====

pub struct BulkOrder {
    pub orders: Vec<OrderRequest>,
    pub grouping: String,
    pub builder: Option<BuilderInfo>,
}

impl BulkOrder {
    pub open spec fn field_count(self) -> nat {
        if self.builder is Some {
            3
        } else {
            2
        }
    }

    /// The entries after "orders": the grouping and the optional builder.
    pub open spec fn tail_fields_bytes(self) -> Seq<u8> {
        mp_str("grouping"@) + mp_str(self.grouping@) + (match self.builder {
            Option::Some(b) => mp_str("builder"@) + b.canon_bytes(),
            Option::None => Seq::empty(),
        })
    }

    pub open spec fn tail_fields_ok(self) -> bool {
        str_ok(self.grouping@) && (match self.builder {
            Option::Some(b) => b.canon_ok(),
            Option::None => true,
        })
    }

    pub open spec fn fields_bytes(self) -> Seq<u8> {
        mp_str("orders"@) + vec_bytes(self.orders@) + self.tail_fields_bytes()
    }

    pub open spec fn fields_ok(self) -> bool {
        vec_ok(self.orders@) && self.tail_fields_ok()
    }

    fn push_tail_fields(&self, out: &mut Vec<u8>) -> (ok: bool)
        ensures
            ok == self.tail_fields_ok(),
            ok ==> final(out)@ == old(out)@ + self.tail_fields_bytes(),
    {
        proof {
            reveal_strlit("grouping");
            reveal_strlit("builder");
        }
        push_key(out, "grouping");
        if !push_mp_str(out, self.grouping.as_str()) {
            return false;
        }
        match &self.builder {
            Option::Some(b) => {
                push_key(out, "builder");
                if !b.push_canon(out) {
                    return false;
                }
                assert(out@ =~= old(out)@ + self.tail_fields_bytes());
            }
            Option::None => {
                assert(out@ =~= old(out)@ + self.tail_fields_bytes());
            }
        }
        true
    }

    pub fn push_fields(&self, out: &mut Vec<u8>) -> (ok: bool)
        ensures
            ok == self.fields_ok(),
            ok ==> final(out)@ == old(out)@ + self.fields_bytes(),
    {
        proof {
            reveal_strlit("orders");
        }
        push_key(out, "orders");
        if !push_vec(&self.orders, out) {
            return false;
        }
        if !self.push_tail_fields(out) {
            return false;
        }
        assert(out@ =~= old(out)@ + self.fields_bytes());
        true
    }
}

pub struct CancelRequest {
    pub asset: u32,
    pub oid: u64,
}

impl Canon for CancelRequest {
    open spec fn canon_bytes(&self) -> Seq<u8> {
        map_hdr(2) + mp_str("a"@) + uint_bytes(self.asset as u64) + mp_str("o"@) + uint_bytes(
            self.oid,
        )
    }

    open spec fn canon_ok(&self) -> bool {
        true
    }

    fn push_canon(&self, out: &mut Vec<u8>) -> (ok: bool) {
        proof {
            reveal_strlit("a");
            reveal_strlit("o");
        }
        push_map_hdr_small(out, 2);
        push_key(out, "a");
        push_uint(out, self.asset as u64);
        push_key(out, "o");
        push_uint(out, self.oid);
        assert(out@ =~= old(out)@ + self.canon_bytes());
        true
    }
}

pub struct BulkCancel {
    pub cancels: Vec<CancelRequest>,
}

impl BulkCancel {
    pub open spec fn field_count(self) -> nat {
        1
    }

    pub open spec fn fields_bytes(self) -> Seq<u8> {
        mp_str("cancels"@) + vec_bytes(self.cancels@)
    }

    pub open spec fn fields_ok(self) -> bool {
        vec_ok(self.cancels@)
    }

    pub fn push_fields(&self, out: &mut Vec<u8>) -> (ok: bool)
        ensures
            ok == self.fields_ok(),
            ok ==> final(out)@ == old(out)@ + self.fields_bytes(),
    {
        proof {
            reveal_strlit("cancels");
        }
        push_key(out, "cancels");
        if !push_vec(&self.cancels, out) {
            return false;
        }
        assert(out@ =~= old(out)@ + self.fields_bytes());
        true
    }
}

pub struct CancelRequestCloid {
    pub asset: u32,
    pub cloid: String,
}

impl Canon for CancelRequestCloid {
    open spec fn canon_bytes(&self) -> Seq<u8> {
        map_hdr(2) + mp_str("asset"@) + uint_bytes(self.asset as u64) + mp_str("cloid"@) + mp_str(
            self.cloid@,
        )
    }

    open spec fn canon_ok(&self) -> bool {
        str_ok(self.cloid@)
    }

    fn push_canon(&self, out: &mut Vec<u8>) -> (ok: bool) {
        proof {
            reveal_strlit("asset");
            reveal_strlit("cloid");
        }
        push_map_hdr_small(out, 2);
        push_key(out, "asset");
        push_uint(out, self.asset as u64);
        push_key(out, "cloid");
        if !push_mp_str(out, self.cloid.as_str()) {
            return false;
        }
        assert(out@ =~= old(out)@ + self.canon_bytes());
        true
    }
}

pub struct BulkCancelCloid {
    pub cancels: Vec<CancelRequestCloid>,
}

impl BulkCancelCloid {
    pub open spec fn field_count(self) -> nat {
        1
    }

    pub open spec fn fields_bytes(self) -> Seq<u8> {
        mp_str("cancels"@) + vec_bytes(self.cancels@)
    }

    pub open spec fn fields_ok(self) -> bool {
        vec_ok(self.cancels@)
    }

    pub fn push_fields(&self, out: &mut Vec<u8>) -> (ok: bool)
        ensures
            ok == self.fields_ok(),
            ok ==> final(out)@ == old(out)@ + self.fields_bytes(),
    {
        proof {
            reveal_strlit("cancels");
        }
        push_key(out, "cancels");
        if !push_vec(&self.cancels, out) {
            return false;
        }
        assert(out@ =~= old(out)@ + self.fields_bytes());
        true
    }
}

pub struct ModifyRequest {
    pub oid: u64,
    pub order: OrderRequest,
}

impl Canon for ModifyRequest {
    open spec fn canon_bytes(&self) -> Seq<u8> {
        map_hdr(2) + mp_str("o"@) + uint_bytes(self.oid) + mp_str("order"@)
            + self.order.canon_bytes()
    }

    open spec fn canon_ok(&self) -> bool {
        self.order.canon_ok()
    }

    fn push_canon(&self, out: &mut Vec<u8>) -> (ok: bool) {
        proof {
            reveal_strlit("o");
            reveal_strlit("order");
        }
        push_map_hdr_small(out, 2);
        push_key(out, "o");
        push_uint(out, self.oid);
        push_key(out, "order");
        if !self.order.push_canon(out) {
            return false;
        }
        assert(out@ =~= old(out)@ + self.canon_bytes());
        true
    }
}

pub struct BulkModify {
    pub modifies: Vec<ModifyRequest>,
}

impl BulkModify {
    pub open spec fn field_count(self) -> nat {
        1
    }

    pub open spec fn fields_bytes(self) -> Seq<u8> {
        mp_str("modifies"@) + vec_bytes(self.modifies@)
    }

    pub open spec fn fields_ok(self) -> bool {
        vec_ok(self.modifies@)
    }

    #[verifier::rlimit(100)]
    #[verifier::spinoff_prover]
    pub fn push_fields(&self, out: &mut Vec<u8>) -> (ok: bool)
        ensures
            ok == self.fields_ok(),
            ok ==> final(out)@ == old(out)@ + self.fields_bytes(),
    {
        proof {
            reveal_strlit("modifies");
        }
        push_key(out, "modifies");
        if !push_vec(&self.modifies, out) {
            return false;
        }
        assert(out@ =~= old(out)@ + self.fields_bytes());
        true
    }
}

pub struct UpdateLeverage {
    pub asset: u32,
    pub is_cross: bool,
    pub leverage: u32,
}

impl UpdateLeverage {
    pub open spec fn field_count(self) -> nat {
        3
    }

    pub open spec fn fields_bytes(self) -> Seq<u8> {
        mp_str("asset"@) + uint_bytes(self.asset as u64) + mp_str("isCross"@) + mp_bool(
            self.is_cross,
        ) + mp_str("leverage"@) + uint_bytes(self.leverage as u64)
    }

    pub open spec fn fields_ok(self) -> bool {
        true
    }

    pub fn push_fields(&self, out: &mut Vec<u8>) -> (ok: bool)
        ensures
            ok == self.fields_ok(),
            ok ==> final(out)@ == old(out)@ + self.fields_bytes(),
    {
        proof {
            reveal_strlit("asset");
            reveal_strlit("isCross");
            reveal_strlit("leverage");
        }
        push_key(out, "asset");
        push_uint(out, self.asset as u64);
        push_key(out, "isCross");
        push_mp_bool(out, self.is_cross);
        push_key(out, "leverage");
        push_uint(out, self.leverage as u64);
        assert(out@ =~= old(out)@ + self.fields_bytes());
        true
    }
}

pub struct UpdateIsolatedMargin {
    pub asset: u32,
    pub is_buy: bool,
    pub ntli: i64,
}

impl UpdateIsolatedMargin {
    pub open spec fn field_count(self) -> nat {
        3
    }

    pub open spec fn fields_bytes(self) -> Seq<u8> {
        mp_str("asset"@) + uint_bytes(self.asset as u64) + mp_str("isBuy"@) + mp_bool(self.is_buy)
            + mp_str("ntli"@) + sint_bytes(self.ntli)
    }

    pub open spec fn fields_ok(self) -> bool {
        true
    }

    pub fn push_fields(&self, out: &mut Vec<u8>) -> (ok: bool)
        ensures
            ok == self.fields_ok(),
            ok ==> final(out)@ == old(out)@ + self.fields_bytes(),
    {
        proof {
            reveal_strlit("asset");
            reveal_strlit("isBuy");
            reveal_strlit("ntli");
        }
        push_key(out, "asset");
        push_uint(out, self.asset as u64);
        push_key(out, "isBuy");
        push_mp_bool(out, self.is_buy);
        push_key(out, "ntli");
        push_sint(out, self.ntli);
        assert(out@ =~= old(out)@ + self.fields_bytes());
        true
    }
}

pub struct ClassTransfer {
    pub usdc: u64,
    pub to_perp: bool,
}

impl ClassTransfer {
    pub open spec fn canon_bytes(self) -> Seq<u8> {
        map_hdr(2) + mp_str("usdc"@) + uint_bytes(self.usdc) + mp_str("toPerp"@) + mp_bool(
            self.to_perp,
        )
    }

    pub fn push_canon(&self, out: &mut Vec<u8>)
        ensures
            final(out)@ == old(out)@ + self.canon_bytes(),
    {
        proof {
            reveal_strlit("usdc");
            reveal_strlit("toPerp");
        }
        push_map_hdr_small(out, 2);
        push_key(out, "usdc");
        push_uint(out, self.usdc);
        push_key(out, "toPerp");
        push_mp_bool(out, self.to_perp);
        assert(out@ =~= old(out)@ + self.canon_bytes());
    }
}

pub struct SpotUser {
    pub class_transfer: ClassTransfer,
}

impl SpotUser {
    pub open spec fn field_count(self) -> nat {
        1
    }

    pub open spec fn fields_bytes(self) -> Seq<u8> {
        mp_str("classTransfer"@) + self.class_transfer.canon_bytes()
    }

    pub open spec fn fields_ok(self) -> bool {
        true
    }

    pub fn push_fields(&self, out: &mut Vec<u8>) -> (ok: bool)
        ensures
            ok == self.fields_ok(),
            ok ==> final(out)@ == old(out)@ + self.fields_bytes(),
    {
        proof {
            reveal_strlit("classTransfer");
        }
        push_key(out, "classTransfer");
        self.class_transfer.push_canon(out);
        assert(out@ =~= old(out)@ + self.fields_bytes());
        true
    }
}

pub struct VaultTransfer {
    pub vault_address: Address,
    pub is_deposit: bool,
    pub usd: u64,
}

impl VaultTransfer {
    pub open spec fn field_count(self) -> nat {
        3
    }

    pub open spec fn fields_bytes(self) -> Seq<u8> {
        mp_str("vaultAddress"@) + bin_hdr(self.vault_address.bytes@.len())
            + self.vault_address.bytes@ + mp_str("isDeposit"@) + mp_bool(self.is_deposit) + mp_str(
            "usd"@,
        ) + uint_bytes(self.usd)
    }

    pub open spec fn fields_ok(self) -> bool {
        self.vault_address.bytes@.len() <= 0xffffffff
    }

    pub fn push_fields(&self, out: &mut Vec<u8>) -> (ok: bool)
        ensures
            ok == self.fields_ok(),
            ok ==> final(out)@ == old(out)@ + self.fields_bytes(),
    {
        proof {
            reveal_strlit("vaultAddress");
            reveal_strlit("isDeposit");
            reveal_strlit("usd");
        }
        push_key(out, "vaultAddress");
        if !push_mp_bin(out, &self.vault_address.bytes) {
            return false;
        }
        push_key(out, "isDeposit");
        push_mp_bool(out, self.is_deposit);
        push_key(out, "usd");
        push_uint(out, self.usd);
        assert(out@ =~= old(out)@ + self.fields_bytes());
        true
    }
}

pub struct SubAccountTransfer {
    pub sub_account_user: String,
    pub is_deposit: bool,
    pub usd: u64,
}

impl SubAccountTransfer {
    pub open spec fn field_count(self) -> nat {
        3
    }

    pub open spec fn fields_bytes(self) -> Seq<u8> {
        mp_str("subAccountUser"@) + mp_str(self.sub_account_user@) + mp_str("isDeposit"@) + mp_bool(
            self.is_deposit,
        ) + mp_str("usd"@) + uint_bytes(self.usd)
    }

    pub open spec fn fields_ok(self) -> bool {
        str_ok(self.sub_account_user@)
    }

    #[verifier::rlimit(100)]
    pub fn push_fields(&self, out: &mut Vec<u8>) -> (ok: bool)
        ensures
            ok == self.fields_ok(),
            ok ==> final(out)@ == old(out)@ + self.fields_bytes(),
    {
        proof {
            reveal_strlit("subAccountUser");
            reveal_strlit("isDeposit");
            reveal_strlit("usd");
        }
        push_key(out, "subAccountUser");
        if !push_mp_str(out, self.sub_account_user.as_str()) {
            return false;
        }
        push_key(out, "isDeposit");
        push_mp_bool(out, self.is_deposit);
        push_key(out, "usd");
        push_uint(out, self.usd);
        assert(out@ =~= old(out)@ + self.fields_bytes());
        true
    }
}

pub struct SubAccountSpotTransfer {
    pub sub_account_user: String,
    pub is_deposit: bool,
    pub token: String,
    pub amount: String,
}

impl SubAccountSpotTransfer {
    pub open spec fn field_count(self) -> nat {
        4
    }

    pub open spec fn fields_bytes(self) -> Seq<u8> {
        mp_str("subAccountUser"@) + mp_str(self.sub_account_user@) + mp_str("isDeposit"@) + mp_bool(
            self.is_deposit,
        ) + mp_str("token"@) + mp_str(self.token@) + mp_str("amount"@) + mp_str(self.amount@)
    }

    pub open spec fn fields_ok(self) -> bool {
        str_ok(self.sub_account_user@) && str_ok(self.token@) && str_ok(self.amount@)
    }

    #[verifier::rlimit(100)]
    pub fn push_fields(&self, out: &mut Vec<u8>) -> (ok: bool)
        ensures
            ok == self.fields_ok(),
            ok ==> final(out)@ == old(out)@ + self.fields_bytes(),
    {
        proof {
            reveal_strlit("subAccountUser");
            reveal_strlit("isDeposit");
            reveal_strlit("token");
            reveal_strlit("amount");
        }
        push_key(out, "subAccountUser");
        if !push_mp_str(out, self.sub_account_user.as_str()) {
            return false;
        }
        push_key(out, "isDeposit");
        push_mp_bool(out, self.is_deposit);
        push_key(out, "token");
        if !push_mp_str(out, self.token.as_str()) {
            return false;
        }
        push_key(out, "amount");
        if !push_mp_str(out, self.amount.as_str()) {
            return false;
        }
        assert(out@ =~= old(out)@ + self.fields_bytes());
        true
    }
}

pub struct UsdClassTransfer {
    pub signature_chain_id: String,
    pub hyperliquid_chain: String,
    pub amount: String,
    pub to_perp: bool,
    pub nonce: u64,
}

impl UsdClassTransfer {
    pub open spec fn field_count(self) -> nat {
        5
    }

    pub open spec fn fields_bytes(self) -> Seq<u8> {
        mp_str("signatureChainId"@) + mp_str(self.signature_chain_id@) + mp_str(
            "hyperliquidChain"@,
        ) + mp_str(self.hyperliquid_chain@) + mp_str("amount"@) + mp_str(self.amount@) + mp_str(
            "toPerp"@,
        ) + mp_bool(self.to_perp) + mp_str("nonce"@) + uint_bytes(self.nonce)
    }

    pub open spec fn fields_ok(self) -> bool {
        str_ok(self.signature_chain_id@) && str_ok(self.hyperliquid_chain@) && str_ok(self.amount@)
    }

    #[verifier::rlimit(100)]
    pub fn push_fields(&self, out: &mut Vec<u8>) -> (ok: bool)
        ensures
            ok == self.fields_ok(),
            ok ==> final(out)@ == old(out)@ + self.fields_bytes(),
    {
        proof {
            reveal_strlit("signatureChainId");
            reveal_strlit("hyperliquidChain");
            reveal_strlit("amount");
            reveal_strlit("toPerp");
            reveal_strlit("nonce");
        }
        push_key(out, "signatureChainId");
        if !push_mp_str(out, self.signature_chain_id.as_str()) {
            return false;
        }
        push_key(out, "hyperliquidChain");
        if !push_mp_str(out, self.hyperliquid_chain.as_str()) {
            return false;
        }
        push_key(out, "amount");
        if !push_mp_str(out, self.amount.as_str()) {
            return false;
        }
        push_key(out, "toPerp");
        push_mp_bool(out, self.to_perp);
        push_key(out, "nonce");
        push_uint(out, self.nonce);
        assert(out@ =~= old(out)@ + self.fields_bytes());
        true
    }
}

pub struct SetReferrer {
    pub code: String,
}

impl SetReferrer {
    pub open spec fn field_count(self) -> nat {
        1
    }

    pub open spec fn fields_bytes(self) -> Seq<u8> {
        mp_str("code"@) + mp_str(self.code@)
    }

    pub open spec fn fields_ok(self) -> bool {
        str_ok(self.code@)
    }

    pub fn push_fields(&self, out: &mut Vec<u8>) -> (ok: bool)
        ensures
            ok == self.fields_ok(),
            ok ==> final(out)@ == old(out)@ + self.fields_bytes(),
    {
        proof {
            reveal_strlit("code");
        }
        push_key(out, "code");
        if !push_mp_str(out, self.code.as_str()) {
            return false;
        }
        assert(out@ =~= old(out)@ + self.fields_bytes());
        true
    }
}

pub struct EvmUserModify {
    pub using_big_blocks: bool,
}

impl EvmUserModify {
    pub open spec fn field_count(self) -> nat {
        1
    }

    pub open spec fn fields_bytes(self) -> Seq<u8> {
        mp_str("usingBigBlocks"@) + mp_bool(self.using_big_blocks)
    }

    pub open spec fn fields_ok(self) -> bool {
        true
    }

    pub fn push_fields(&self, out: &mut Vec<u8>) -> (ok: bool)
        ensures
            ok == self.fields_ok(),
            ok ==> final(out)@ == old(out)@ + self.fields_bytes(),
    {
        proof {
            reveal_strlit("usingBigBlocks");
        }
        push_key(out, "usingBigBlocks");
        push_mp_bool(out, self.using_big_blocks);
        assert(out@ =~= old(out)@ + self.fields_bytes());
        true
    }
}

pub struct ScheduleCancel {
    pub time: Option<u64>,
}

impl ScheduleCancel {
    pub open spec fn field_count(self) -> nat {
        if self.time is Some {
            1
        } else {
            0
        }
    }

    pub open spec fn fields_bytes(self) -> Seq<u8> {
        match self.time {
            Option::Some(t) => mp_str("time"@) + uint_bytes(t),
            Option::None => Seq::empty(),
        }
    }

    pub open spec fn fields_ok(self) -> bool {
        true
    }

    pub fn push_fields(&self, out: &mut Vec<u8>) -> (ok: bool)
        ensures
            ok == self.fields_ok(),
            ok ==> final(out)@ == old(out)@ + self.fields_bytes(),
    {
        proof {
            reveal_strlit("time");
        }
        match self.time {
            Option::Some(t) => {
                push_key(out, "time");
                push_uint(out, t);
            }
            Option::None => {}
        }
        assert(out@ =~= old(out)@ + self.fields_bytes());
        true
    }
}

/// The rewards-claim action carries no fields of its own.
pub struct ClaimRewards;

impl ClaimRewards {
    pub open spec fn field_count(self) -> nat {
        0
    }

    pub open spec fn fields_bytes(self) -> Seq<u8> {
        Seq::empty()
    }

    pub open spec fn fields_ok(self) -> bool {
        true
    }
}

// ===== The tagged action union =====

/// The closed set of exchange actions. The canonical encoding is a single map
/// whose first entry is the protocol tag under the key "type", followed by
/// the variant's fields in declaration order.
pub enum Actions {
    UpdateLeverage(UpdateLeverage),
    UpdateIsolatedMargin(UpdateIsolatedMargin),
    Order(BulkOrder),
    Cancel(BulkCancel),
    CancelByCloid(BulkCancelCloid),
    BatchModify(BulkModify),
    SpotUser(SpotUser),
    VaultTransfer(VaultTransfer),
    SubAccountTransfer(SubAccountTransfer),
    SubAccountSpotTransfer(SubAccountSpotTransfer),
    UsdClassTransfer(UsdClassTransfer),
    SetReferrer(SetReferrer),
    EvmUserModify(EvmUserModify),
    ScheduleCancel(ScheduleCancel),
    ClaimRewards(ClaimRewards),
}

impl Actions {
    /// The protocol tag embedded under the key "type".
    pub open spec fn tag(self) -> Seq<char> {
        match self {
            Actions::UpdateLeverage(_) => "updateLeverage"@,
            Actions::UpdateIsolatedMargin(_) => "updateIsolatedMargin"@,
            Actions::Order(_) => "order"@,
            Actions::Cancel(_) => "cancel"@,
            Actions::CancelByCloid(_) => "cancelByCloid"@,
            Actions::BatchModify(_) => "batchModify"@,
            Actions::SpotUser(_) => "spotUser"@,
            Actions::VaultTransfer(_) => "vaultTransfer"@,
            Actions::SubAccountTransfer(_) => "subAccountTransfer"@,
            Actions::SubAccountSpotTransfer(_) => "subAccountSpotTransfer"@,
            Actions::UsdClassTransfer(_) => "usdClassTransfer"@,
            Actions::SetReferrer(_) => "setReferrer"@,
            Actions::EvmUserModify(_) => "evmUserModify"@,
            Actions::ScheduleCancel(_) => "scheduleCancel"@,
            Actions::ClaimRewards(_) => "claimRewards"@,
        }
    }

    pub open spec fn payload_count(self) -> nat {
        match self {
            Actions::UpdateLeverage(a) => a.field_count(),
            Actions::UpdateIsolatedMargin(a) => a.field_count(),
            Actions::Order(a) => a.field_count(),
            Actions::Cancel(a) => a.field_count(),
            Actions::CancelByCloid(a) => a.field_count(),
            Actions::BatchModify(a) => a.field_count(),
            Actions::SpotUser(a) => a.field_count(),
            Actions::VaultTransfer(a) => a.field_count(),
            Actions::SubAccountTransfer(a) => a.field_count(),
            Actions::SubAccountSpotTransfer(a) => a.field_count(),
            Actions::UsdClassTransfer(a) => a.field_count(),
            Actions::SetReferrer(a) => a.field_count(),
            Actions::EvmUserModify(a) => a.field_count(),
            Actions::ScheduleCancel(a) => a.field_count(),
            Actions::ClaimRewards(a) => a.field_count(),
        }
    }

    pub open spec fn payload_bytes(self) -> Seq<u8> {
        match self {
            Actions::UpdateLeverage(a) => a.fields_bytes(),
            Actions::UpdateIsolatedMargin(a) => a.fields_bytes(),
            Actions::Order(a) => a.fields_bytes(),
            Actions::Cancel(a) => a.fields_bytes(),
            Actions::CancelByCloid(a) => a.fields_bytes(),
            Actions::BatchModify(a) => a.fields_bytes(),
            Actions::SpotUser(a) => a.fields_bytes(),
            Actions::VaultTransfer(a) => a.fields_bytes(),
            Actions::SubAccountTransfer(a) => a.fields_bytes(),
            Actions::SubAccountSpotTransfer(a) => a.fields_bytes(),
            Actions::UsdClassTransfer(a) => a.fields_bytes(),
            Actions::SetReferrer(a) => a.fields_bytes(),
            Actions::EvmUserModify(a) => a.fields_bytes(),
            Actions::ScheduleCancel(a) => a.fields_bytes(),
            Actions::ClaimRewards(a) => a.fields_bytes(),
        }
    }

    pub open spec fn payload_ok(self) -> bool {
        match self {
            Actions::UpdateLeverage(a) => a.fields_ok(),
            Actions::UpdateIsolatedMargin(a) => a.fields_ok(),
            Actions::Order(a) => a.fields_ok(),
            Actions::Cancel(a) => a.fields_ok(),
            Actions::CancelByCloid(a) => a.fields_ok(),
            Actions::BatchModify(a) => a.fields_ok(),
            Actions::SpotUser(a) => a.fields_ok(),
            Actions::VaultTransfer(a) => a.fields_ok(),
            Actions::SubAccountTransfer(a) => a.fields_ok(),
            Actions::SubAccountSpotTransfer(a) => a.fields_ok(),
            Actions::UsdClassTransfer(a) => a.fields_ok(),
            Actions::SetReferrer(a) => a.fields_ok(),
            Actions::EvmUserModify(a) => a.fields_ok(),
            Actions::ScheduleCancel(a) => a.fields_ok(),
            Actions::ClaimRewards(a) => a.fields_ok(),
        }
    }

    /// The canonical bytes of the whole action: one map holding the tag entry
    /// and then the variant's fields, in declaration order.
    pub open spec fn canon_bytes(self) -> Seq<u8> {
        map_hdr(1 + self.payload_count()) + mp_str("type"@) + mp_str(self.tag())
            + self.payload_bytes()
    }

    pub open spec fn canon_ok(self) -> bool {
        self.payload_ok()
    }

    /// The number of map entries of the canonical encoding, the tag included.
    pub fn entry_count(&self) -> (n: u8)
        ensures
            n as nat == 1 + self.payload_count(),
            n < 16,
    {
        match self {
            Actions::UpdateLeverage(_) => 4,
            Actions::UpdateIsolatedMargin(_) => 4,
            Actions::Order(a) => if a.builder.is_some() {
                4
            } else {
                3
            },
            Actions::Cancel(_) => 2,
            Actions::CancelByCloid(_) => 2,
            Actions::BatchModify(_) => 2,
            Actions::SpotUser(_) => 2,
            Actions::VaultTransfer(_) => 4,
            Actions::SubAccountTransfer(_) => 4,
            Actions::SubAccountSpotTransfer(_) => 5,
            Actions::UsdClassTransfer(_) => 6,
            Actions::SetReferrer(_) => 2,
            Actions::EvmUserModify(_) => 2,
            Actions::ScheduleCancel(a) => if a.time.is_some() {
                2
            } else {
                1
            },
            Actions::ClaimRewards(_) => 1,
        }
    }

    /// Appends the encoding of the action's tag string.
    fn push_tag(&self, out: &mut Vec<u8>)
        ensures
            final(out)@ == old(out)@ + mp_str(self.tag()),
    {
        match self {
            Actions::UpdateLeverage(_) => {
                proof {
                    reveal_strlit("updateLeverage");
                }
                push_key(out, "updateLeverage");
            }
            Actions::UpdateIsolatedMargin(_) => {
                proof {
                    reveal_strlit("updateIsolatedMargin");
                }
                push_key(out, "updateIsolatedMargin");
            }
            Actions::Order(_) => {
                proof {
                    reveal_strlit("order");
                }
                push_key(out, "order");
            }
            Actions::Cancel(_) => {
                proof {
                    reveal_strlit("cancel");
                }
                push_key(out, "cancel");
            }
            Actions::CancelByCloid(_) => {
                proof {
                    reveal_strlit("cancelByCloid");
                }
                push_key(out, "cancelByCloid");
            }
            Actions::BatchModify(_) => {
                proof {
                    reveal_strlit("batchModify");
                }
                push_key(out, "batchModify");
            }
            Actions::SpotUser(_) => {
                proof {
                    reveal_strlit("spotUser");
                }
                push_key(out, "spotUser");
            }
            Actions::VaultTransfer(_) => {
                proof {
                    reveal_strlit("vaultTransfer");
                }
                push_key(out, "vaultTransfer");
            }
            Actions::SubAccountTransfer(_) => {
                proof {
                    reveal_strlit("subAccountTransfer");
                }
                push_key(out, "subAccountTransfer");
            }
            Actions::SubAccountSpotTransfer(_) => {
                proof {
                    reveal_strlit("subAccountSpotTransfer");
                }
                push_key(out, "subAccountSpotTransfer");
            }
            Actions::UsdClassTransfer(_) => {
                proof {
                    reveal_strlit("usdClassTransfer");
                }
                push_key(out, "usdClassTransfer");
            }
            Actions::SetReferrer(_) => {
                proof {
                    reveal_strlit("setReferrer");
                }
                push_key(out, "setReferrer");
            }
            Actions::EvmUserModify(_) => {
                proof {
                    reveal_strlit("evmUserModify");
                }
                push_key(out, "evmUserModify");
            }
            Actions::ScheduleCancel(_) => {
                proof {
                    reveal_strlit("scheduleCancel");
                }
                push_key(out, "scheduleCancel");
            }
            Actions::ClaimRewards(_) => {
                proof {
                    reveal_strlit("claimRewards");
                }
                push_key(out, "claimRewards");
            }
        }
    }

    /// Appends the variant's own fields.
    fn push_payload(&self, out: &mut Vec<u8>) -> (ok: bool)
        ensures
            ok == self.payload_ok(),
            ok ==> final(out)@ == old(out)@ + self.payload_bytes(),
    {
        match self {
            Actions::UpdateLeverage(a) => a.push_fields(out),
            Actions::UpdateIsolatedMargin(a) => a.push_fields(out),
            Actions::Order(a) => a.push_fields(out),
            Actions::Cancel(a) => a.push_fields(out),
            Actions::CancelByCloid(a) => a.push_fields(out),
            Actions::BatchModify(a) => a.push_fields(out),
            Actions::SpotUser(a) => a.push_fields(out),
            Actions::VaultTransfer(a) => a.push_fields(out),
            Actions::SubAccountTransfer(a) => a.push_fields(out),
            Actions::SubAccountSpotTransfer(a) => a.push_fields(out),
            Actions::UsdClassTransfer(a) => a.push_fields(out),
            Actions::SetReferrer(a) => a.push_fields(out),
            Actions::EvmUserModify(a) => a.push_fields(out),
            Actions::ScheduleCancel(a) => a.push_fields(out),
            Actions::ClaimRewards(_) => {
                assert(out@ =~= out@ + self.payload_bytes());
                true
            }
        }
    }

    /// Appends the canonical encoding; false exactly when a length in the
    /// action exceeds its widest MessagePack header.
    pub fn push_canon(&self, out: &mut Vec<u8>) -> (ok: bool)
        ensures
            ok == self.canon_ok(),
            ok ==> final(out)@ == old(out)@ + self.canon_bytes(),
    {
        proof {
            reveal_strlit("type");
        }
        let n = self.entry_count();
        push_map_hdr_small(out, n);
        push_key(out, "type");
        self.push_tag(out);
        if !self.push_payload(out) {
            return false;
        }
        assert(out@ =~= old(out)@ + self.canon_bytes());
        true
    }
}

// ===== The typed encodings agree with the generic value encoder =====

/// The canonical encoding of a setReferrer action is the MessagePack
/// encoding of its wire-order value tree: a two-entry map holding the tag
/// entry first, then the payload field, in struct order. The typed encoder
/// and the generic value encoder therefore hash such an action identically.
pub proof fn lemma_set_referrer_tree_equiv(a: SetReferrer, tree: Value)
    requires
        tree matches Value::Obj(ps) && {
            &&& ps@.len() == 2
            &&& ps@[0].0@ == "type"@
            &&& (ps@[0].1 matches Value::Str(s) && s@ == "setReferrer"@)
            &&& ps@[1].0@ == "code"@
            &&& (ps@[1].1 matches Value::Str(s) && s@ == a.code@)
        },
    ensures
        mp(tree) == Actions::SetReferrer(a).canon_bytes(),
{
    let ps = tree->Obj_0;
    let t1 = ps@.drop_first();
    assert(t1[0] == ps@[1]);
    assert(t1.len() == 1);
    assert(t1.drop_first() =~= Seq::<(String, Value)>::empty());
    assert(mp_pairs(t1.drop_first()) == Seq::<u8>::empty());
    assert(mp(ps@[0].1) == mp_str("setReferrer"@));
    assert(mp(ps@[1].1) == mp_str(a.code@));
    assert(mp_pairs(t1) =~= mp_str("code"@) + mp_str(a.code@));
    assert(mp_pairs(ps@) =~= mp_str("type"@) + mp_str("setReferrer"@) + mp_pairs(t1));
    assert(mp(tree) =~= map_hdr(2) + mp_str("type"@) + mp_str("setReferrer"@) + mp_str("code"@)
        + mp_str(a.code@));
    assert(Actions::SetReferrer(a).canon_bytes() =~= map_hdr(2) + mp_str("type"@) + mp_str(
        "setReferrer"@,
    ) + mp_str("code"@) + mp_str(a.code@));
}

/// The canonical encoding of an evmUserModify action is the MessagePack
/// encoding of its wire-order value tree, as for setReferrer.
pub proof fn lemma_evm_user_modify_tree_equiv(a: EvmUserModify, tree: Value)
    requires
        tree matches Value::Obj(ps) && {
            &&& ps@.len() == 2
            &&& ps@[0].0@ == "type"@
            &&& (ps@[0].1 matches Value::Str(s) && s@ == "evmUserModify"@)
            &&& ps@[1].0@ == "usingBigBlocks"@
            &&& ps@[1].1 == Value::Bool(a.using_big_blocks)
        },
    ensures
        mp(tree) == Actions::EvmUserModify(a).canon_bytes(),
{
    let ps = tree->Obj_0;
    let t1 = ps@.drop_first();
    assert(t1[0] == ps@[1]);
    assert(t1.len() == 1);
    assert(t1.drop_first() =~= Seq::<(String, Value)>::empty());
    assert(mp_pairs(t1.drop_first()) == Seq::<u8>::empty());
    assert(mp(ps@[0].1) == mp_str("evmUserModify"@));
    assert(mp(ps@[1].1) == mp_bool(a.using_big_blocks));
    assert(mp_pairs(t1) =~= mp_str("usingBigBlocks"@) + mp_bool(a.using_big_blocks));
    assert(mp_pairs(ps@) =~= mp_str("type"@) + mp_str("evmUserModify"@) + mp_pairs(t1));
    assert(mp(tree) =~= map_hdr(2) + mp_str("type"@) + mp_str("evmUserModify"@) + mp_str(
        "usingBigBlocks"@,
    ) + mp_bool(a.using_big_blocks));
    assert(Actions::EvmUserModify(a).canon_bytes() =~= map_hdr(2) + mp_str("type"@) + mp_str(
        "evmUserModify"@,
    ) + mp_str("usingBigBlocks"@) + mp_bool(a.using_big_blocks));
}

} // verus!
