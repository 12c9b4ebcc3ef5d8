//! Orders and cancellations in the form that the exchange signs and reads.
use extrema_infra::arch::market_assets::api_general::OrderParams;
use extrema_infra::arch::market_assets::base_data::{OrderSide, OrderType};
use extrema_infra::arch::market_assets::exchange::prelude::{
    HyperliquidAuth, HyperliquidCancelAction, HyperliquidCancelByOidRequest, HyperliquidOrderAction,
    hyperliquid_order_from_params, hyperliquid_perp_asset_id_for_dex,
};
use extrema_infra::errors::InfraError;
use vstd::prelude::*;
use crate::arch::execution_probe_module::utils;
use crate::json;
use crate::json::{Json, compact};
use crate::text;
use crate::text::{owned, push_number};

verus! {

/// The error of `extrema_infra`.
#[verifier::external_type_specification]
#[verifier::external_body]
pub struct ExInfraError(InfraError);

/// The keys of an account.
#[verifier::external_type_specification]
#[verifier::external_body]
pub struct ExHyperliquidAuth(HyperliquidAuth);

/// An order as the exchange reads it.
#[verifier::external_type_specification]
#[verifier::external_body]
pub struct ExHyperliquidOrderAction(HyperliquidOrderAction);

/// The message of an error.
pub uninterp spec fn infra_error_text(error: InfraError) -> Seq<char>;

/// The message of an `InfraError`, as it displays itself.
#[verifier::external_body]
pub(crate) fn infra_message(error: &InfraError) -> (r: String)
    ensures
        r@ == infra_error_text(*error),
{
    error.to_string()
}

/// The number of an asset: that of its market, or one in the range of its dex.
pub open spec fn asset_number(index: u32, dex_index: Option<u32>) -> int {
    match dex_index {
        Some(dex) => if dex == 0 {
            index as int
        } else {
            100_000 + 10_000 * dex + index
        },
        None => index as int,
    }
}

/// Calls `hyperliquid_perp_asset_id_for_dex`: the number of the asset, or an
/// error where that number is beyond the range of `u32`.
#[verifier::external_body]
fn perp_asset_id(index: u32, dex_index: Option<u32>) -> (r: Result<u32, InfraError>)
    ensures
        match r {
            Ok(id) => id == asset_number(index, dex_index),
            Err(_) => asset_number(index, dex_index) > u32::MAX,
        },
{
    hyperliquid_perp_asset_id_for_dex(index, dex_index)
}

/// Why the traded asset is unknown.
#[derive(Debug)]
pub enum AssetError {
    /// Holds the instrument.
    InstrumentNotFound(String),
    DexIndexMissing,
    /// Holds the message of the client.
    OutOfRange(String),
}

impl AssetError {
    /// What the error says.
    pub open spec fn text(self) -> Seq<char> {
        match self {
            AssetError::InstrumentNotFound(instrument) => "HL instrument not found: "@
                + instrument@,
            AssetError::DexIndexMissing => "HL perp dex index not initialized"@,
            AssetError::OutOfRange(message) => message@,
        }
    }

    pub fn message(&self) -> (r: String)
        ensures
            r@ == self.text(),
    {
        match self {
            AssetError::InstrumentNotFound(instrument) => {
                owned("HL instrument not found: ").concat(instrument.as_str())
            },
            AssetError::DexIndexMissing => owned("HL perp dex index not initialized"),
            AssetError::OutOfRange(message) => message.clone(),
        }
    }
}

/// What the client knows of the instrument: its place among the markets, whether
/// a dex is set, and the place of the dex.
#[derive(Clone, Copy, Debug, PartialEq, Eq, Structural)]
pub struct InstrumentPlace {
    pub index: Option<u32>,
    pub has_perp_dex: bool,
    pub perp_dex_index: Option<u32>,
}

/// The number of the traded asset. The place of the dex counts only where a dex
/// is set.
pub fn resolve_asset_id(place: InstrumentPlace, instrument: &str) -> (r: Result<u32, AssetError>)
    ensures
        match r {
            Ok(id) => {
                &&& place.index is Some
                &&& place.has_perp_dex ==> place.perp_dex_index is Some
                &&& id == asset_number(
                    place.index->0,
                    if place.has_perp_dex {
                        place.perp_dex_index
                    } else {
                        None
                    },
                )
            },
            Err(AssetError::InstrumentNotFound(named)) => place.index is None && named@
                == instrument@,
            Err(AssetError::DexIndexMissing) => place.index is Some && place.has_perp_dex
                && place.perp_dex_index is None,
            Err(AssetError::OutOfRange(_)) => {
                &&& place.index is Some
                &&& place.has_perp_dex
                &&& place.perp_dex_index is Some
                &&& asset_number(place.index->0, place.perp_dex_index) > u32::MAX
            },
        },
{
    let index = match place.index {
        Some(index) => index,
        None => {
            return Err(AssetError::InstrumentNotFound(owned(instrument)));
        },
    };
    let dex_index = if place.has_perp_dex {
        match place.perp_dex_index {
            Some(dex) => Some(dex),
            None => {
                return Err(AssetError::DexIndexMissing);
            },
        }
    } else {
        None
    };
    match perp_asset_id(index, dex_index) {
        Ok(id) => Ok(id),
        Err(error) => Err(AssetError::OutOfRange(infra_message(&error))),
    }
}

/// What `hyperliquid_order_from_params` makes of an order: the action that holds
/// it, or the message of the error.
pub uninterp spec fn hl_order(
    asset_id: u32,
    buy: bool,
    size: Seq<char>,
    price: Seq<char>,
    post_only: bool,
    reduce_only: bool,
    cloid: Option<Seq<char>>,
) -> Result<HyperliquidOrderAction, Seq<char>>;

/// How JSON writes a flag.
pub open spec fn flag(value: bool) -> Seq<char> {
    if value {
        "true"@
    } else {
        "false"@
    }
}

/// The text of an order: the asset, the side, the price, the size, whether it may
/// only reduce, how long it stands, and its client order id.
pub open spec fn order_json(
    asset_id: u32,
    buy: bool,
    size: Seq<char>,
    price: Seq<char>,
    post_only: bool,
    reduce_only: bool,
    cloid: Option<Seq<char>>,
) -> Seq<char> {
    "{\"type\":\"order\",\"orders\":[{\"a\":"@ + text::digits(asset_id as nat) + ",\"b\":"@ + flag(buy)
        + ",\"p\":\""@ + price + "\",\"s\":\""@ + size + "\",\"r\":"@ + flag(reduce_only)
        + ",\"t\":{\"limit\":{\"tif\":\""@ + (if post_only {
        "Alo"@
    } else {
        "Ioc"@
    }) + "\"}}"@ + (match cloid {
        Some(id) => ",\"c\":\""@ + text::lowered(id) + "\""@,
        None => Seq::empty(),
    }) + "}],\"grouping\":\"na\"}"@
}

/// The size and the price are plain decimals, and the client order id is missing
/// or of the accepted form.
pub open spec fn is_plain_order(
    size: Seq<char>,
    price: Seq<char>,
    cloid: Option<Seq<char>>,
) -> bool {
    &&& text::is_plain_number(size)
    &&& text::is_plain_number(price)
    &&& cloid is None || utils::is_cloid(cloid->0)
}

/// Calls `hyperliquid_order_from_params` on a limit order and puts the request
/// into an ungrouped order action. The outcome depends on the arguments alone.
/// An order without a client order id, or with one of the accepted form, is
/// never refused. Plain decimals stand in the order as they are given, and the
/// client order id in lower case; how other numbers are written is not stated.
#[verifier::external_body]
pub(crate) fn order_action(
    asset_id: u32,
    buy: bool,
    size: String,
    price: String,
    post_only: bool,
    reduce_only: bool,
    cloid: Option<String>,
) -> (r: Result<HyperliquidOrderAction, InfraError>)
    ensures
        hl_order(asset_id, buy, size@, price@, post_only, reduce_only, text::optional_text(cloid)) == (
        match r {
            Ok(action) => Ok::<HyperliquidOrderAction, Seq<char>>(action),
            Err(error) => Err::<HyperliquidOrderAction, Seq<char>>(infra_error_text(error)),
        }),
        cloid is None ==> r is Ok,
        cloid is Some && utils::is_cloid(cloid->0@) ==> r is Ok,
        is_plain_order(size@, price@, text::optional_text(cloid)) ==> hl_order_text(r->Ok_0) is Ok
            && hl_order_text(r->Ok_0)->Ok_0 == order_json(
            asset_id,
            buy,
            size@,
            price@,
            post_only,
            reduce_only,
            text::optional_text(cloid),
        ),
{
    hyperliquid_order_from_params(OrderParams {
        inst: asset_id.to_string(),
        side: if buy { OrderSide::BUY } else { OrderSide::SELL },
        size,
        order_type: if post_only { OrderType::PostOnly } else { OrderType::Ioc },
        price: Some(price),
        reduce_only: Some(reduce_only),
        client_order_id: cloid,
        ..Default::default()
    })
    .map(|request| HyperliquidOrderAction {
        kind: "order", orders: vec![request], grouping: "na", builder: None,
    })
}

/// The text that `serde_json` writes for an order action, or the message of the
/// error.
pub uninterp spec fn hl_order_text(action: HyperliquidOrderAction) -> Result<Seq<char>, Seq<char>>;

/// Calls `serde_json::to_string` on an order action. The outcome depends on the
/// action alone; the text is not stated.
#[verifier::external_body]
pub(crate) fn order_text(action: &HyperliquidOrderAction) -> (r: Result<String, serde_json::Error>)
    ensures
        hl_order_text(*action) == (match r {
            Ok(text) => Ok::<Seq<char>, Seq<char>>(text@),
            Err(error) => Err::<Seq<char>, Seq<char>>(json::json_error_text(error)),
        }),
{
    serde_json::to_string(action)
}

/// The text of a cancellation.
pub open spec fn cancellation(asset_id: u32, oid: u64) -> Seq<char> {
    "{\"type\":\"cancel\",\"cancels\":[{\"a\":"@ + text::digits(asset_id as nat) + ",\"o\":"@
        + text::digits(oid as nat) + "}]}"@
}

/// Calls `serde_json::to_string` on the cancellation of an order by its id. The
/// text names the kind of the action, the asset and the order, in that order.
#[verifier::external_body]
pub(crate) fn cancel_text(asset_id: u32, oid: u64) -> (r: Result<String, serde_json::Error>)
    ensures
        r is Ok,
        r->Ok_0@ == cancellation(asset_id, oid),
{
    serde_json::to_string(&HyperliquidCancelAction::ByOid {
        cancels: vec![HyperliquidCancelByOidRequest { asset: asset_id, order_id: oid }],
    })
}

/// A signature as the exchange reads it.
#[derive(Debug)]
pub struct Signature {
    pub r: String,
    pub s: String,
    pub v: u64,
}

/// What a signature holds.
pub ghost struct SignatureView {
    pub r: Seq<char>,
    pub s: Seq<char>,
    pub v: u64,
}

impl Signature {
    pub open spec fn view(self) -> SignatureView {
        SignatureView { r: self.r@, s: self.s@, v: self.v }
    }
}

/// The signature of an order action, or the message of the error.
pub uninterp spec fn hl_order_signature(
    auth: HyperliquidAuth,
    action: HyperliquidOrderAction,
    nonce: u64,
    vault: Option<Seq<char>>,
) -> Result<SignatureView, Seq<char>>;

/// The signature of a cancellation, or the message of the error.
pub uninterp spec fn hl_cancel_signature(
    auth: HyperliquidAuth,
    asset_id: u32,
    oid: u64,
    nonce: u64,
    vault: Option<Seq<char>>,
) -> Result<SignatureView, Seq<char>>;

/// A signature, or the message of the error, without its characters' owners.
pub open spec fn outcome(r: Result<Signature, InfraError>) -> Result<SignatureView, Seq<char>> {
    match r {
        Ok(signature) => Ok(signature@),
        Err(error) => Err(infra_error_text(error)),
    }
}

/// Calls `HyperliquidAuth::sign_l1_action` on an order action. The signing is
/// deterministic: the outcome depends on the keys, the action, the nonce and the
/// vault alone. The signature is not stated.
#[verifier::external_body]
pub(crate) fn sign_order(
    auth: &HyperliquidAuth,
    action: &HyperliquidOrderAction,
    nonce: u64,
    vault: &Option<String>,
) -> (r: Result<Signature, InfraError>)
    ensures
        outcome(r) == hl_order_signature(*auth, *action, nonce, text::optional_text(*vault)),
{
    auth.sign_l1_action(action, nonce, vault.as_deref()).map(|signature| Signature {
        r: signature.r, s: signature.s, v: signature.v,
    })
}

/// Calls `HyperliquidAuth::sign_l1_action` on the cancellation of an order by its
/// id. The signing is deterministic: the outcome depends on the keys, the asset,
/// the order, the nonce and the vault alone. The signature is not stated.
#[verifier::external_body]
pub(crate) fn sign_cancel(
    auth: &HyperliquidAuth,
    asset_id: u32,
    oid: u64,
    nonce: u64,
    vault: &Option<String>,
) -> (r: Result<Signature, InfraError>)
    ensures
        outcome(r) == hl_cancel_signature(*auth, asset_id, oid, nonce, text::optional_text(*vault)),
{
    let action = HyperliquidCancelAction::ByOid {
        cancels: vec![HyperliquidCancelByOidRequest { asset: asset_id, order_id: oid }],
    };
    auth.sign_l1_action(&action, nonce, vault.as_deref()).map(|signature| Signature {
        r: signature.r, s: signature.s, v: signature.v,
    })
}

/// A text as JSON writes it.
pub open spec fn quoted(inner: String) -> Seq<char> {
    json::compact_text(Json::Text(inner))
}

/// The message that posts a signed action.
pub open spec fn post_text(
    request_id: u64,
    action: Seq<char>,
    nonce: u64,
    signature: Signature,
    vault: Option<String>,
) -> Seq<char> {
    "{\"method\":\"post\",\"id\":"@ + text::digits(request_id as nat)
        + ",\"request\":{\"type\":\"action\",\"payload\":{\"action\":"@ + action + ",\"nonce\":"@
        + text::digits(nonce as nat) + ",\"signature\":{\"r\":"@ + quoted(signature.r) + ",\"s\":"@
        + quoted(signature.s) + ",\"v\":"@ + text::digits(signature.v as nat) + "}"@ + (
    match vault {
        Some(address) => ",\"vaultAddress\":"@ + quoted(address),
        None => Seq::empty(),
    }) + "}}}"@
}

fn push_quoted(out: &mut String, inner: &String)
    ensures
        final(out)@ == old(out)@ + quoted(*inner),
{
    let written = compact(&Json::Text(inner.clone()));
    out.append(written.as_str());
}

/// The message that posts a signed action.
pub fn post_message(
    request_id: u64,
    action: &str,
    nonce: u64,
    signature: &Signature,
    vault: &Option<String>,
) -> (r: String)
    ensures
        r@ == post_text(request_id, action@, nonce, *signature, *vault),
{
    let mut out = owned("{\"method\":\"post\",\"id\":");
    push_number(&mut out, request_id);
    out.append(",\"request\":{\"type\":\"action\",\"payload\":{\"action\":");
    out.append(action);
    out.append(",\"nonce\":");
    push_number(&mut out, nonce);
    out.append(",\"signature\":{\"r\":");
    push_quoted(&mut out, &signature.r);
    out.append(",\"s\":");
    push_quoted(&mut out, &signature.s);
    out.append(",\"v\":");
    push_number(&mut out, signature.v);
    out.append("}");
    let ghost before = out@;
    match vault {
        Some(address) => {
            out.append(",\"vaultAddress\":");
            push_quoted(&mut out, address);
        },
        None => {},
    }
    proof {
        assert(out@ =~= before + (match *vault {
            Some(address) => ",\"vaultAddress\":"@ + quoted(address),
            None => Seq::empty(),
        }));
    }
    out.append("}}}");
    out
}

} // verus!
