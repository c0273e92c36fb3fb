//! Records of the account endpoints: wallets, margin, funding, invoices,
//! transfers, withdrawals and movements.
use vstd::prelude::*;
use crate::codec::{
    protocol_error,    array_conforms, by_names, conforms, dec_of, distinct_names, elems, entries_view, expect_array,
    fits, int32_of, int_of, item, item_at, opt_any_of, opt_any_wire, opt_dec_of, opt_dec_wire,
    opt_int32_of, opt_int_of, opt_int_wire, opt_str_of, opt_str_wire, opt_view,
    positional_from_object, read_any, read_dec, read_int, read_int32, read_opt_dec, read_opt_int,
    read_opt_int32, read_opt_str, read_str, rejected, same_text, same_value, str_of, succeeded,
    take_item, Slot,
};
use crate::body::{object_text, Field, FieldValue, ObjectWriter};
use crate::client::{signed_as, Client};
use crate::error::ClientError;
use crate::signer::{OperationKind, SignedRequest};
use vstd::string::StringExecFns;
use crate::wire::{Decimal, Wire};

verus! {

/// A wallet balance.
#[derive(Debug)]
pub struct Wallet {
    pub wallet_type: String,
    pub currency: String,
    pub balance: Decimal,
    pub unsettled_interest: Decimal,
    pub balance_available: Option<Decimal>,
    pub last_change: Option<String>,
    pub trade_details: Option<Wire>,
}

/// The field names of a Wallet, by position.
pub open spec fn wallet_names() -> Seq<&'static str> {
    seq![
        "wallet_type",
        "currency",
        "balance",
        "unsettled_interest",
        "balance_available",
        "last_change",
        "trade_details",
    ]
}

proof fn lemma_wallet_names_distinct()
    ensures
        distinct_names(wallet_names()),
{
    reveal_strlit("wallet_type");
    reveal_strlit("currency");
    reveal_strlit("balance");
    reveal_strlit("unsettled_interest");
    reveal_strlit("balance_available");
    reveal_strlit("last_change");
    reveal_strlit("trade_details");
    let n = wallet_names();
    assert forall|i: int, j: int| 0 <= i < j < n.len() implies n[i]@ != n[j]@ by {
        assert(n[i]@.len() != n[j]@.len() || n[i]@[0] != n[j]@[0]);
    }
}

fn wallet_field_names() -> (r: Vec<&'static str>)
    ensures
        r@ == wallet_names(),
{
    vec![
        "wallet_type",
        "currency",
        "balance",
        "unsettled_interest",
        "balance_available",
        "last_change",
        "trade_details",
    ]
}

/// The positions of a Wallet, in order.
pub open spec fn wallet_schema() -> Seq<Slot> {
    seq![Slot::Str, Slot::Str, Slot::Dec, Slot::Dec, Slot::OptDec, Slot::OptStr, Slot::Any]
}

fn wallet_slots() -> (r: Vec<Slot>)
    ensures
        r@ == wallet_schema(),
{
    vec![Slot::Str, Slot::Str, Slot::Dec, Slot::Dec, Slot::OptDec, Slot::OptStr, Slot::Any]
}

impl Wallet {
    /// Whether `w` is an array that decodes as a Wallet.
    pub open spec fn array_ok(w: Wire) -> bool {
        array_conforms(w, wallet_schema())
    }

    /// Whether each named field holds what its position in `items` holds.
    pub open spec fn decoded_from(self, items: Seq<Wire>) -> bool {
        self.wallet_type@ == str_of(item_at(items, 0))
            && self.currency@ == str_of(item_at(items, 1))
            && self.balance == dec_of(item_at(items, 2))
            && self.unsettled_interest == dec_of(item_at(items, 3))
            && self.balance_available == opt_dec_of(item_at(items, 4))
            && opt_view(self.last_change) == opt_str_of(item_at(items, 5))
            && self.trade_details == opt_any_of(item_at(items, 6))
    }

    /// The error that decoding `w` as a Wallet ends in.
    pub open spec fn array_rejects(e: ClientError, w: Wire) -> bool {
        protocol_error(e, w, "Wallet"@)
    }

    /// Decodes a Wallet from its positional form; elements past the last
    /// declared position are ignored.
    pub fn from_array(w: Wire) -> (r: Result<Wallet, ClientError>)
        ensures
            r is Ok <==> Self::array_ok(w),
            r matches Ok(v) ==> v.decoded_from(elems(w)),
            r matches Err(e) ==> Self::array_rejects(e, w),
    {
        let mut items = match expect_array(w, &wallet_slots(), "Wallet") {
            Ok(items) => items,
            Err(e) => return Err(e),
        };
        let null = Wire::Null;
        let wallet_type = read_str(item(&items, 0, &null));
        let currency = read_str(item(&items, 1, &null));
        let balance = read_dec(item(&items, 2, &null));
        let unsettled_interest = read_dec(item(&items, 3, &null));
        let balance_available = read_opt_dec(item(&items, 4, &null));
        let last_change = read_opt_str(item(&items, 5, &null));
        let trade_details = read_any(take_item(&mut items, 6));
        Ok(Wallet {
            wallet_type,
            currency,
            balance,
            unsettled_interest,
            balance_available,
            last_change,
            trade_details,
        })
    }

    /// The positions of a wallet: an array's elements, or an object's values
    /// laid out by field name.
    pub open spec fn positions(w: Wire) -> Seq<Wire> {
        match w {
            Wire::Object(entries) => by_names(entries@, wallet_names()),
            _ => elems(w),
        }
    }

    /// Whether `w` decodes as a Wallet, from either form.
    pub open spec fn wire_ok(w: Wire) -> bool {
        (w is Array || w is Object) && conforms(Self::positions(w), wallet_schema())
    }

    /// The error that decoding `w` as a Wallet ends in: it carries the array,
    /// or the object laid out as one, and names the record.
    pub open spec fn rejects(e: ClientError, w: Wire) -> bool {
        match w {
            Wire::Object(_) => match e {
                ClientError::Protocol { record, payload } => payload is Array && elems(payload)
                    == Self::positions(w) && record@ == "Wallet"@,
                _ => false,
            },
            _ => protocol_error(e, w, "Wallet"@),
        }
    }

    /// Decodes a Wallet from a positional array or from an object with the
    /// fields by name; elements past the last declared position, and entries
    /// under other names, are ignored.
    pub fn from_wire(w: Wire) -> (r: Result<Wallet, ClientError>)
        ensures
            r is Ok <==> Self::wire_ok(w),
            r matches Ok(v) ==> v.decoded_from(Self::positions(w)),
            r matches Err(e) ==> Self::rejects(e, w),
    {
        match w {
            Wire::Object(entries) => {
                let names = wallet_field_names();
                proof {
                    lemma_wallet_names_distinct();
                }
                let items = positional_from_object(entries, &names);
                Wallet::from_array(Wire::Array(items))
            },
            _ => Wallet::from_array(w),
        }
    }
    /// Whether `w` is this record written as an object of its named fields.
    pub open spec fn written_as(self, w: Wire) -> bool {
        w is Object
            && entries_view(w).len() == 7
            && entries_view(w)[0] == ("wallet_type"@, Wire::Str(self.wallet_type))
            && entries_view(w)[1] == ("currency"@, Wire::Str(self.currency))
            && entries_view(w)[2] == ("balance"@, Wire::Num(self.balance))
            && entries_view(w)[3] == ("unsettled_interest"@, Wire::Num(self.unsettled_interest))
            && entries_view(w)[4] == ("balance_available"@, opt_dec_wire(self.balance_available))
            && entries_view(w)[5] == ("last_change"@, opt_str_wire(self.last_change))
            && entries_view(w)[6] == ("trade_details"@, opt_any_wire(self.trade_details))
    }

    /// Whether the object `o` holds, under each field's name, what the
    /// field's position in `items` holds.
    pub open spec fn round_trips(o: Wire, items: Seq<Wire>) -> bool {
        entries_view(o)[0].0 == "wallet_type"@ && same_value(entries_view(o)[0].1, item_at(items, 0))
            && entries_view(o)[1].0 == "currency"@ && same_value(entries_view(o)[1].1, item_at(items, 1))
            && entries_view(o)[2].0 == "balance"@ && same_value(entries_view(o)[2].1, item_at(items, 2))
            && entries_view(o)[3].0 == "unsettled_interest"@ && same_value(entries_view(o)[3].1, item_at(items, 3))
            && entries_view(o)[4].0 == "balance_available"@ && same_value(entries_view(o)[4].1, item_at(items, 4))
            && entries_view(o)[5].0 == "last_change"@ && same_value(entries_view(o)[5].1, item_at(items, 5))
            && entries_view(o)[6].0 == "trade_details"@ && same_value(entries_view(o)[6].1, item_at(items, 6))
    }

    /// Writes the record as an object of its named fields, in order;
    /// reserved positions are not written.
    pub fn into_object(self) -> (r: Wire)
        ensures
            self.written_as(r),
    {
        let Wallet {
            wallet_type,
            currency,
            balance,
            unsettled_interest,
            balance_available,
            last_change,
            trade_details,
        } = self;
        let mut e: Vec<(String, Wire)> = Vec::new();
        e.push((String::from_str("wallet_type"), Wire::Str(wallet_type)));
        e.push((String::from_str("currency"), Wire::Str(currency)));
        e.push((String::from_str("balance"), Wire::Num(balance)));
        e.push((String::from_str("unsettled_interest"), Wire::Num(unsettled_interest)));
        e.push((String::from_str("balance_available"), match balance_available {
            Some(x) => Wire::Num(x),
            None => Wire::Null,
        }));
        e.push((String::from_str("last_change"), match last_change {
            Some(x) => Wire::Str(x),
            None => Wire::Null,
        }));
        e.push((String::from_str("trade_details"), match trade_details {
            Some(x) => x,
            None => Wire::Null,
        }));
        let r = Wire::Object(e);
        assert(entries_view(r).len() == 7);
        r
    }

}

/// A Wallet decoded from a well-formed array and written back as an
/// object holds, under each field's name, the value of that field's position.
pub proof fn lemma_wallet_round_trip(v: Wallet, items: Seq<Wire>, o: Wire)
    requires
        conforms(items, wallet_schema()),
        v.decoded_from(items),
        v.written_as(o),
    ensures
        Wallet::round_trips(o, items),
{
    assert(fits(item_at(items, 0), wallet_schema()[0]));
    assert(fits(item_at(items, 1), wallet_schema()[1]));
    assert(fits(item_at(items, 2), wallet_schema()[2]));
    assert(fits(item_at(items, 3), wallet_schema()[3]));
    assert(fits(item_at(items, 4), wallet_schema()[4]));
    assert(fits(item_at(items, 5), wallet_schema()[5]));
    assert(fits(item_at(items, 6), wallet_schema()[6]));
}

/// Margin figures of the whole account.
#[derive(Debug)]
pub struct Base {
    pub user_profit_loss: Decimal,
    pub user_swaps: Decimal,
    pub margin_balance: Decimal,
    pub margin_net: Decimal,
}

/// The positions of a Base, in order.
pub open spec fn base_schema() -> Seq<Slot> {
    seq![Slot::Dec, Slot::Dec, Slot::Dec, Slot::Dec]
}

fn base_slots() -> (r: Vec<Slot>)
    ensures
        r@ == base_schema(),
{
    vec![Slot::Dec, Slot::Dec, Slot::Dec, Slot::Dec]
}

impl Base {
    /// Whether `w` decodes as a Base.
    pub open spec fn wire_ok(w: Wire) -> bool {
        array_conforms(w, base_schema())
    }

    /// Whether each named field holds what its position in `items` holds.
    pub open spec fn decoded_from(self, items: Seq<Wire>) -> bool {
        self.user_profit_loss == dec_of(item_at(items, 0))
            && self.user_swaps == dec_of(item_at(items, 1))
            && self.margin_balance == dec_of(item_at(items, 2))
            && self.margin_net == dec_of(item_at(items, 3))
    }

    /// The error that decoding `w` as a Base ends in.
    pub open spec fn rejects(e: ClientError, w: Wire) -> bool {
        protocol_error(e, w, "Base"@)
    }

    /// Decodes a Base from its positional form; elements past the last
    /// declared position are ignored.
    pub fn from_wire(w: Wire) -> (r: Result<Base, ClientError>)
        ensures
            r is Ok <==> Self::wire_ok(w),
            r matches Ok(v) ==> v.decoded_from(elems(w)),
            r matches Err(e) ==> Self::rejects(e, w),
    {
        let mut items = match expect_array(w, &base_slots(), "Base") {
            Ok(items) => items,
            Err(e) => return Err(e),
        };
        let null = Wire::Null;
        let user_profit_loss = read_dec(item(&items, 0, &null));
        let user_swaps = read_dec(item(&items, 1, &null));
        let margin_balance = read_dec(item(&items, 2, &null));
        let margin_net = read_dec(item(&items, 3, &null));
        Ok(Base { user_profit_loss, user_swaps, margin_balance, margin_net })
    }
    /// Whether `w` is this record written as an object of its named fields.
    pub open spec fn written_as(self, w: Wire) -> bool {
        w is Object
            && entries_view(w).len() == 4
            && entries_view(w)[0] == ("user_profit_loss"@, Wire::Num(self.user_profit_loss))
            && entries_view(w)[1] == ("user_swaps"@, Wire::Num(self.user_swaps))
            && entries_view(w)[2] == ("margin_balance"@, Wire::Num(self.margin_balance))
            && entries_view(w)[3] == ("margin_net"@, Wire::Num(self.margin_net))
    }

    /// Whether the object `o` holds, under each field's name, what the
    /// field's position in `items` holds.
    pub open spec fn round_trips(o: Wire, items: Seq<Wire>) -> bool {
        entries_view(o)[0].0 == "user_profit_loss"@ && same_value(entries_view(o)[0].1, item_at(items, 0))
            && entries_view(o)[1].0 == "user_swaps"@ && same_value(entries_view(o)[1].1, item_at(items, 1))
            && entries_view(o)[2].0 == "margin_balance"@ && same_value(entries_view(o)[2].1, item_at(items, 2))
            && entries_view(o)[3].0 == "margin_net"@ && same_value(entries_view(o)[3].1, item_at(items, 3))
    }

    /// Writes the record as an object of its named fields, in order;
    /// reserved positions are not written.
    pub fn into_object(self) -> (r: Wire)
        ensures
            self.written_as(r),
    {
        let Base { user_profit_loss, user_swaps, margin_balance, margin_net } = self;
        let mut e: Vec<(String, Wire)> = Vec::new();
        e.push((String::from_str("user_profit_loss"), Wire::Num(user_profit_loss)));
        e.push((String::from_str("user_swaps"), Wire::Num(user_swaps)));
        e.push((String::from_str("margin_balance"), Wire::Num(margin_balance)));
        e.push((String::from_str("margin_net"), Wire::Num(margin_net)));
        let r = Wire::Object(e);
        assert(entries_view(r).len() == 4);
        r
    }

}

/// A Base decoded from a well-formed array and written back as an
/// object holds, under each field's name, the value of that field's position.
pub proof fn lemma_base_round_trip(v: Base, items: Seq<Wire>, o: Wire)
    requires
        conforms(items, base_schema()),
        v.decoded_from(items),
        v.written_as(o),
    ensures
        Base::round_trips(o, items),
{
    assert(fits(item_at(items, 0), base_schema()[0]));
    assert(fits(item_at(items, 1), base_schema()[1]));
    assert(fits(item_at(items, 2), base_schema()[2]));
    assert(fits(item_at(items, 3), base_schema()[3]));
}

/// Margin information of the whole account.
#[derive(Debug)]
pub struct MarginBase {
    pub key: String,
    pub margin: Base,
}

/// The positions of a MarginBase, in order.
pub open spec fn margin_base_schema() -> Seq<Slot> {
    seq![Slot::Str, Slot::Record]
}

fn margin_base_slots() -> (r: Vec<Slot>)
    ensures
        r@ == margin_base_schema(),
{
    vec![Slot::Str, Slot::Record]
}

impl MarginBase {
    /// Whether `w` decodes as a MarginBase.
    pub open spec fn wire_ok(w: Wire) -> bool {
        array_conforms(w, margin_base_schema())
            && Base::wire_ok(item_at(elems(w), 1))
    }

    /// Whether each named field holds what its position in `items` holds.
    pub open spec fn decoded_from(self, items: Seq<Wire>) -> bool {
        self.key@ == str_of(item_at(items, 0))
            && self.margin.decoded_from(elems(item_at(items, 1)))
    }

    /// The error that decoding `w` as a MarginBase ends in.
    pub open spec fn rejects(e: ClientError, w: Wire) -> bool {
        if !array_conforms(w, margin_base_schema()) {
            protocol_error(e, w, "MarginBase"@)
        } else {
            Base::rejects(e, item_at(elems(w), 1))
        }
    }

    /// Decodes a MarginBase from its positional form; elements past the last
    /// declared position are ignored.
    pub fn from_wire(w: Wire) -> (r: Result<MarginBase, ClientError>)
        ensures
            r is Ok <==> Self::wire_ok(w),
            r matches Ok(v) ==> v.decoded_from(elems(w)),
            r matches Err(e) ==> Self::rejects(e, w),
    {
        let mut items = match expect_array(w, &margin_base_slots(), "MarginBase") {
            Ok(items) => items,
            Err(e) => return Err(e),
        };
        let null = Wire::Null;
        let key = read_str(item(&items, 0, &null));
        let margin = match Base::from_wire(take_item(&mut items, 1)) {
            Ok(v) => v,
            Err(e) => return Err(e),
        };
        Ok(MarginBase { key, margin })
    }
    /// Whether `w` is this record written as an object of its named fields.
    pub open spec fn written_as(self, w: Wire) -> bool {
        w is Object
            && entries_view(w).len() == 2
            && entries_view(w)[0] == ("key"@, Wire::Str(self.key))
            && entries_view(w)[1].0 == "margin"@ && self.margin.written_as(entries_view(w)[1].1)
    }

    /// Whether the object `o` holds, under each field's name, what the
    /// field's position in `items` holds.
    pub open spec fn round_trips(o: Wire, items: Seq<Wire>) -> bool {
        entries_view(o)[0].0 == "key"@ && same_value(entries_view(o)[0].1, item_at(items, 0))
            && entries_view(o)[1].0 == "margin"@ && Base::round_trips(entries_view(o)[1].1, elems(item_at(items, 1)))
    }

    /// Writes the record as an object of its named fields, in order;
    /// reserved positions are not written.
    pub fn into_object(self) -> (r: Wire)
        ensures
            self.written_as(r),
    {
        let MarginBase { key, margin } = self;
        let mut e: Vec<(String, Wire)> = Vec::new();
        e.push((String::from_str("key"), Wire::Str(key)));
        e.push((String::from_str("margin"), margin.into_object()));
        let r = Wire::Object(e);
        assert(entries_view(r).len() == 2);
        r
    }

}

/// A MarginBase decoded from a well-formed array and written back as an
/// object holds, under each field's name, the value of that field's position.
pub proof fn lemma_margin_base_round_trip(v: MarginBase, items: Seq<Wire>, o: Wire)
    requires
        conforms(items, margin_base_schema()),
        Base::wire_ok(item_at(items, 1)),
        v.decoded_from(items),
        v.written_as(o),
    ensures
        MarginBase::round_trips(o, items),
{
    assert(fits(item_at(items, 0), margin_base_schema()[0]));
    lemma_base_round_trip(v.margin, elems(item_at(items, 1)), entries_view(o)[1].1);
}

/// Margin figures of one trading pair.
#[derive(Debug)]
pub struct Symbol {
    pub tradable_balance: Decimal,
    pub gross_balance: Decimal,
    pub buy: Decimal,
    pub sell: Decimal,
}

/// The positions of a Symbol, in order.
pub open spec fn symbol_schema() -> Seq<Slot> {
    seq![Slot::Dec, Slot::Dec, Slot::Dec, Slot::Dec, Slot::Skip, Slot::Skip, Slot::Skip, Slot::Skip]
}

fn symbol_slots() -> (r: Vec<Slot>)
    ensures
        r@ == symbol_schema(),
{
    vec![Slot::Dec, Slot::Dec, Slot::Dec, Slot::Dec, Slot::Skip, Slot::Skip, Slot::Skip, Slot::Skip]
}

impl Symbol {
    /// Whether `w` decodes as a Symbol.
    pub open spec fn wire_ok(w: Wire) -> bool {
        array_conforms(w, symbol_schema())
    }

    /// Whether each named field holds what its position in `items` holds.
    pub open spec fn decoded_from(self, items: Seq<Wire>) -> bool {
        self.tradable_balance == dec_of(item_at(items, 0))
            && self.gross_balance == dec_of(item_at(items, 1))
            && self.buy == dec_of(item_at(items, 2))
            && self.sell == dec_of(item_at(items, 3))
    }

    /// The error that decoding `w` as a Symbol ends in.
    pub open spec fn rejects(e: ClientError, w: Wire) -> bool {
        protocol_error(e, w, "Symbol"@)
    }

    /// Decodes a Symbol from its positional form; elements past the last
    /// declared position are ignored.
    pub fn from_wire(w: Wire) -> (r: Result<Symbol, ClientError>)
        ensures
            r is Ok <==> Self::wire_ok(w),
            r matches Ok(v) ==> v.decoded_from(elems(w)),
            r matches Err(e) ==> Self::rejects(e, w),
    {
        let mut items = match expect_array(w, &symbol_slots(), "Symbol") {
            Ok(items) => items,
            Err(e) => return Err(e),
        };
        let null = Wire::Null;
        let tradable_balance = read_dec(item(&items, 0, &null));
        let gross_balance = read_dec(item(&items, 1, &null));
        let buy = read_dec(item(&items, 2, &null));
        let sell = read_dec(item(&items, 3, &null));
        Ok(Symbol { tradable_balance, gross_balance, buy, sell })
    }
    /// Whether `w` is this record written as an object of its named fields.
    pub open spec fn written_as(self, w: Wire) -> bool {
        w is Object
            && entries_view(w).len() == 4
            && entries_view(w)[0] == ("tradable_balance"@, Wire::Num(self.tradable_balance))
            && entries_view(w)[1] == ("gross_balance"@, Wire::Num(self.gross_balance))
            && entries_view(w)[2] == ("buy"@, Wire::Num(self.buy))
            && entries_view(w)[3] == ("sell"@, Wire::Num(self.sell))
    }

    /// Whether the object `o` holds, under each field's name, what the
    /// field's position in `items` holds.
    pub open spec fn round_trips(o: Wire, items: Seq<Wire>) -> bool {
        entries_view(o)[0].0 == "tradable_balance"@ && same_value(entries_view(o)[0].1, item_at(items, 0))
            && entries_view(o)[1].0 == "gross_balance"@ && same_value(entries_view(o)[1].1, item_at(items, 1))
            && entries_view(o)[2].0 == "buy"@ && same_value(entries_view(o)[2].1, item_at(items, 2))
            && entries_view(o)[3].0 == "sell"@ && same_value(entries_view(o)[3].1, item_at(items, 3))
    }

    /// Writes the record as an object of its named fields, in order;
    /// reserved positions are not written.
    pub fn into_object(self) -> (r: Wire)
        ensures
            self.written_as(r),
    {
        let Symbol { tradable_balance, gross_balance, buy, sell } = self;
        let mut e: Vec<(String, Wire)> = Vec::new();
        e.push((String::from_str("tradable_balance"), Wire::Num(tradable_balance)));
        e.push((String::from_str("gross_balance"), Wire::Num(gross_balance)));
        e.push((String::from_str("buy"), Wire::Num(buy)));
        e.push((String::from_str("sell"), Wire::Num(sell)));
        let r = Wire::Object(e);
        assert(entries_view(r).len() == 4);
        r
    }

}

/// A Symbol decoded from a well-formed array and written back as an
/// object holds, under each field's name, the value of that field's position.
pub proof fn lemma_symbol_round_trip(v: Symbol, items: Seq<Wire>, o: Wire)
    requires
        conforms(items, symbol_schema()),
        v.decoded_from(items),
        v.written_as(o),
    ensures
        Symbol::round_trips(o, items),
{
    assert(fits(item_at(items, 0), symbol_schema()[0]));
    assert(fits(item_at(items, 1), symbol_schema()[1]));
    assert(fits(item_at(items, 2), symbol_schema()[2]));
    assert(fits(item_at(items, 3), symbol_schema()[3]));
}

/// Margin information of one trading pair.
#[derive(Debug)]
pub struct MarginSymbol {
    pub key: String,
    pub symbol: String,
    pub margin: Symbol,
}

/// The positions of a MarginSymbol, in order.
pub open spec fn margin_symbol_schema() -> Seq<Slot> {
    seq![Slot::Str, Slot::Str, Slot::Record]
}

fn margin_symbol_slots() -> (r: Vec<Slot>)
    ensures
        r@ == margin_symbol_schema(),
{
    vec![Slot::Str, Slot::Str, Slot::Record]
}

impl MarginSymbol {
    /// Whether `w` decodes as a MarginSymbol.
    pub open spec fn wire_ok(w: Wire) -> bool {
        array_conforms(w, margin_symbol_schema())
            && Symbol::wire_ok(item_at(elems(w), 2))
    }

    /// Whether each named field holds what its position in `items` holds.
    pub open spec fn decoded_from(self, items: Seq<Wire>) -> bool {
        self.key@ == str_of(item_at(items, 0))
            && self.symbol@ == str_of(item_at(items, 1))
            && self.margin.decoded_from(elems(item_at(items, 2)))
    }

    /// The error that decoding `w` as a MarginSymbol ends in.
    pub open spec fn rejects(e: ClientError, w: Wire) -> bool {
        if !array_conforms(w, margin_symbol_schema()) {
            protocol_error(e, w, "MarginSymbol"@)
        } else {
            Symbol::rejects(e, item_at(elems(w), 2))
        }
    }

    /// Decodes a MarginSymbol from its positional form; elements past the last
    /// declared position are ignored.
    pub fn from_wire(w: Wire) -> (r: Result<MarginSymbol, ClientError>)
        ensures
            r is Ok <==> Self::wire_ok(w),
            r matches Ok(v) ==> v.decoded_from(elems(w)),
            r matches Err(e) ==> Self::rejects(e, w),
    {
        let mut items = match expect_array(w, &margin_symbol_slots(), "MarginSymbol") {
            Ok(items) => items,
            Err(e) => return Err(e),
        };
        let null = Wire::Null;
        let key = read_str(item(&items, 0, &null));
        let symbol = read_str(item(&items, 1, &null));
        let margin = match Symbol::from_wire(take_item(&mut items, 2)) {
            Ok(v) => v,
            Err(e) => return Err(e),
        };
        Ok(MarginSymbol { key, symbol, margin })
    }
    /// Whether `w` is this record written as an object of its named fields.
    pub open spec fn written_as(self, w: Wire) -> bool {
        w is Object
            && entries_view(w).len() == 3
            && entries_view(w)[0] == ("key"@, Wire::Str(self.key))
            && entries_view(w)[1] == ("symbol"@, Wire::Str(self.symbol))
            && entries_view(w)[2].0 == "margin"@ && self.margin.written_as(entries_view(w)[2].1)
    }

    /// Whether the object `o` holds, under each field's name, what the
    /// field's position in `items` holds.
    pub open spec fn round_trips(o: Wire, items: Seq<Wire>) -> bool {
        entries_view(o)[0].0 == "key"@ && same_value(entries_view(o)[0].1, item_at(items, 0))
            && entries_view(o)[1].0 == "symbol"@ && same_value(entries_view(o)[1].1, item_at(items, 1))
            && entries_view(o)[2].0 == "margin"@ && Symbol::round_trips(entries_view(o)[2].1, elems(item_at(items, 2)))
    }

    /// Writes the record as an object of its named fields, in order;
    /// reserved positions are not written.
    pub fn into_object(self) -> (r: Wire)
        ensures
            self.written_as(r),
    {
        let MarginSymbol { key, symbol, margin } = self;
        let mut e: Vec<(String, Wire)> = Vec::new();
        e.push((String::from_str("key"), Wire::Str(key)));
        e.push((String::from_str("symbol"), Wire::Str(symbol)));
        e.push((String::from_str("margin"), margin.into_object()));
        let r = Wire::Object(e);
        assert(entries_view(r).len() == 3);
        r
    }

}

/// A MarginSymbol decoded from a well-formed array and written back as an
/// object holds, under each field's name, the value of that field's position.
pub proof fn lemma_margin_symbol_round_trip(v: MarginSymbol, items: Seq<Wire>, o: Wire)
    requires
        conforms(items, margin_symbol_schema()),
        Symbol::wire_ok(item_at(items, 2)),
        v.decoded_from(items),
        v.written_as(o),
    ensures
        MarginSymbol::round_trips(o, items),
{
    assert(fits(item_at(items, 0), margin_symbol_schema()[0]));
    assert(fits(item_at(items, 1), margin_symbol_schema()[1]));
    lemma_symbol_round_trip(v.margin, elems(item_at(items, 2)), entries_view(o)[2].1);
}

/// Funding yields and durations.
#[derive(Debug)]
pub struct Funding {
    pub yield_loan: Decimal,
    pub yield_lend: Decimal,
    pub duration_loan: Decimal,
    pub duration_lend: Decimal,
}

/// The positions of a Funding, in order.
pub open spec fn funding_schema() -> Seq<Slot> {
    seq![Slot::Dec, Slot::Dec, Slot::Dec, Slot::Dec]
}

fn funding_slots() -> (r: Vec<Slot>)
    ensures
        r@ == funding_schema(),
{
    vec![Slot::Dec, Slot::Dec, Slot::Dec, Slot::Dec]
}

impl Funding {
    /// Whether `w` decodes as a Funding.
    pub open spec fn wire_ok(w: Wire) -> bool {
        array_conforms(w, funding_schema())
    }

    /// Whether each named field holds what its position in `items` holds.
    pub open spec fn decoded_from(self, items: Seq<Wire>) -> bool {
        self.yield_loan == dec_of(item_at(items, 0))
            && self.yield_lend == dec_of(item_at(items, 1))
            && self.duration_loan == dec_of(item_at(items, 2))
            && self.duration_lend == dec_of(item_at(items, 3))
    }

    /// The error that decoding `w` as a Funding ends in.
    pub open spec fn rejects(e: ClientError, w: Wire) -> bool {
        protocol_error(e, w, "Funding"@)
    }

    /// Decodes a Funding from its positional form; elements past the last
    /// declared position are ignored.
    pub fn from_wire(w: Wire) -> (r: Result<Funding, ClientError>)
        ensures
            r is Ok <==> Self::wire_ok(w),
            r matches Ok(v) ==> v.decoded_from(elems(w)),
            r matches Err(e) ==> Self::rejects(e, w),
    {
        let mut items = match expect_array(w, &funding_slots(), "Funding") {
            Ok(items) => items,
            Err(e) => return Err(e),
        };
        let null = Wire::Null;
        let yield_loan = read_dec(item(&items, 0, &null));
        let yield_lend = read_dec(item(&items, 1, &null));
        let duration_loan = read_dec(item(&items, 2, &null));
        let duration_lend = read_dec(item(&items, 3, &null));
        Ok(Funding { yield_loan, yield_lend, duration_loan, duration_lend })
    }
    /// Whether `w` is this record written as an object of its named fields.
    pub open spec fn written_as(self, w: Wire) -> bool {
        w is Object
            && entries_view(w).len() == 4
            && entries_view(w)[0] == ("yield_loan"@, Wire::Num(self.yield_loan))
            && entries_view(w)[1] == ("yield_lend"@, Wire::Num(self.yield_lend))
            && entries_view(w)[2] == ("duration_loan"@, Wire::Num(self.duration_loan))
            && entries_view(w)[3] == ("duration_lend"@, Wire::Num(self.duration_lend))
    }

    /// Whether the object `o` holds, under each field's name, what the
    /// field's position in `items` holds.
    pub open spec fn round_trips(o: Wire, items: Seq<Wire>) -> bool {
        entries_view(o)[0].0 == "yield_loan"@ && same_value(entries_view(o)[0].1, item_at(items, 0))
            && entries_view(o)[1].0 == "yield_lend"@ && same_value(entries_view(o)[1].1, item_at(items, 1))
            && entries_view(o)[2].0 == "duration_loan"@ && same_value(entries_view(o)[2].1, item_at(items, 2))
            && entries_view(o)[3].0 == "duration_lend"@ && same_value(entries_view(o)[3].1, item_at(items, 3))
    }

    /// Writes the record as an object of its named fields, in order;
    /// reserved positions are not written.
    pub fn into_object(self) -> (r: Wire)
        ensures
            self.written_as(r),
    {
        let Funding { yield_loan, yield_lend, duration_loan, duration_lend } = self;
        let mut e: Vec<(String, Wire)> = Vec::new();
        e.push((String::from_str("yield_loan"), Wire::Num(yield_loan)));
        e.push((String::from_str("yield_lend"), Wire::Num(yield_lend)));
        e.push((String::from_str("duration_loan"), Wire::Num(duration_loan)));
        e.push((String::from_str("duration_lend"), Wire::Num(duration_lend)));
        let r = Wire::Object(e);
        assert(entries_view(r).len() == 4);
        r
    }

}

/// A Funding decoded from a well-formed array and written back as an
/// object holds, under each field's name, the value of that field's position.
pub proof fn lemma_funding_round_trip(v: Funding, items: Seq<Wire>, o: Wire)
    requires
        conforms(items, funding_schema()),
        v.decoded_from(items),
        v.written_as(o),
    ensures
        Funding::round_trips(o, items),
{
    assert(fits(item_at(items, 0), funding_schema()[0]));
    assert(fits(item_at(items, 1), funding_schema()[1]));
    assert(fits(item_at(items, 2), funding_schema()[2]));
    assert(fits(item_at(items, 3), funding_schema()[3]));
}

/// Funding information of one currency.
#[derive(Debug)]
pub struct FundingInfo {
    pub key: String,
    pub symbol: String,
    pub funding: Funding,
}

/// The positions of a FundingInfo, in order.
pub open spec fn funding_info_schema() -> Seq<Slot> {
    seq![Slot::Str, Slot::Str, Slot::Record]
}

fn funding_info_slots() -> (r: Vec<Slot>)
    ensures
        r@ == funding_info_schema(),
{
    vec![Slot::Str, Slot::Str, Slot::Record]
}

impl FundingInfo {
    /// Whether `w` decodes as a FundingInfo.
    pub open spec fn wire_ok(w: Wire) -> bool {
        array_conforms(w, funding_info_schema())
            && Funding::wire_ok(item_at(elems(w), 2))
    }

    /// Whether each named field holds what its position in `items` holds.
    pub open spec fn decoded_from(self, items: Seq<Wire>) -> bool {
        self.key@ == str_of(item_at(items, 0))
            && self.symbol@ == str_of(item_at(items, 1))
            && self.funding.decoded_from(elems(item_at(items, 2)))
    }

    /// The error that decoding `w` as a FundingInfo ends in.
    pub open spec fn rejects(e: ClientError, w: Wire) -> bool {
        if !array_conforms(w, funding_info_schema()) {
            protocol_error(e, w, "FundingInfo"@)
        } else {
            Funding::rejects(e, item_at(elems(w), 2))
        }
    }

    /// Decodes a FundingInfo from its positional form; elements past the last
    /// declared position are ignored.
    pub fn from_wire(w: Wire) -> (r: Result<FundingInfo, ClientError>)
        ensures
            r is Ok <==> Self::wire_ok(w),
            r matches Ok(v) ==> v.decoded_from(elems(w)),
            r matches Err(e) ==> Self::rejects(e, w),
    {
        let mut items = match expect_array(w, &funding_info_slots(), "FundingInfo") {
            Ok(items) => items,
            Err(e) => return Err(e),
        };
        let null = Wire::Null;
        let key = read_str(item(&items, 0, &null));
        let symbol = read_str(item(&items, 1, &null));
        let funding = match Funding::from_wire(take_item(&mut items, 2)) {
            Ok(v) => v,
            Err(e) => return Err(e),
        };
        Ok(FundingInfo { key, symbol, funding })
    }
    /// Whether `w` is this record written as an object of its named fields.
    pub open spec fn written_as(self, w: Wire) -> bool {
        w is Object
            && entries_view(w).len() == 3
            && entries_view(w)[0] == ("key"@, Wire::Str(self.key))
            && entries_view(w)[1] == ("symbol"@, Wire::Str(self.symbol))
            && entries_view(w)[2].0 == "funding"@ && self.funding.written_as(entries_view(w)[2].1)
    }

    /// Whether the object `o` holds, under each field's name, what the
    /// field's position in `items` holds.
    pub open spec fn round_trips(o: Wire, items: Seq<Wire>) -> bool {
        entries_view(o)[0].0 == "key"@ && same_value(entries_view(o)[0].1, item_at(items, 0))
            && entries_view(o)[1].0 == "symbol"@ && same_value(entries_view(o)[1].1, item_at(items, 1))
            && entries_view(o)[2].0 == "funding"@ && Funding::round_trips(entries_view(o)[2].1, elems(item_at(items, 2)))
    }

    /// Writes the record as an object of its named fields, in order;
    /// reserved positions are not written.
    pub fn into_object(self) -> (r: Wire)
        ensures
            self.written_as(r),
    {
        let FundingInfo { key, symbol, funding } = self;
        let mut e: Vec<(String, Wire)> = Vec::new();
        e.push((String::from_str("key"), Wire::Str(key)));
        e.push((String::from_str("symbol"), Wire::Str(symbol)));
        e.push((String::from_str("funding"), funding.into_object()));
        let r = Wire::Object(e);
        assert(entries_view(r).len() == 3);
        r
    }

}

/// A FundingInfo decoded from a well-formed array and written back as an
/// object holds, under each field's name, the value of that field's position.
pub proof fn lemma_funding_info_round_trip(v: FundingInfo, items: Seq<Wire>, o: Wire)
    requires
        conforms(items, funding_info_schema()),
        Funding::wire_ok(item_at(items, 2)),
        v.decoded_from(items),
        v.written_as(o),
    ensures
        FundingInfo::round_trips(o, items),
{
    assert(fits(item_at(items, 0), funding_info_schema()[0]));
    assert(fits(item_at(items, 1), funding_info_schema()[1]));
    lemma_funding_round_trip(v.funding, elems(item_at(items, 2)), entries_view(o)[2].1);
}

/// A generated deposit invoice.
#[derive(Debug)]
pub struct InvoiceInfo {
    pub invoice_hash: String,
    pub invoice: String,
    pub amount: String,
}

/// The positions of a InvoiceInfo, in order.
pub open spec fn invoice_info_schema() -> Seq<Slot> {
    seq![Slot::Str, Slot::Str, Slot::Skip, Slot::Skip, Slot::Str]
}

fn invoice_info_slots() -> (r: Vec<Slot>)
    ensures
        r@ == invoice_info_schema(),
{
    vec![Slot::Str, Slot::Str, Slot::Skip, Slot::Skip, Slot::Str]
}

impl InvoiceInfo {
    /// Whether `w` decodes as a InvoiceInfo.
    pub open spec fn wire_ok(w: Wire) -> bool {
        array_conforms(w, invoice_info_schema())
    }

    /// Whether each named field holds what its position in `items` holds.
    pub open spec fn decoded_from(self, items: Seq<Wire>) -> bool {
        self.invoice_hash@ == str_of(item_at(items, 0))
            && self.invoice@ == str_of(item_at(items, 1))
            && self.amount@ == str_of(item_at(items, 4))
    }

    /// The error that decoding `w` as a InvoiceInfo ends in.
    pub open spec fn rejects(e: ClientError, w: Wire) -> bool {
        protocol_error(e, w, "InvoiceInfo"@)
    }

    /// Decodes a InvoiceInfo from its positional form; elements past the last
    /// declared position are ignored.
    pub fn from_wire(w: Wire) -> (r: Result<InvoiceInfo, ClientError>)
        ensures
            r is Ok <==> Self::wire_ok(w),
            r matches Ok(v) ==> v.decoded_from(elems(w)),
            r matches Err(e) ==> Self::rejects(e, w),
    {
        let mut items = match expect_array(w, &invoice_info_slots(), "InvoiceInfo") {
            Ok(items) => items,
            Err(e) => return Err(e),
        };
        let null = Wire::Null;
        let invoice_hash = read_str(item(&items, 0, &null));
        let invoice = read_str(item(&items, 1, &null));
        let amount = read_str(item(&items, 4, &null));
        Ok(InvoiceInfo { invoice_hash, invoice, amount })
    }
    /// Whether `w` is this record written as an object of its named fields.
    pub open spec fn written_as(self, w: Wire) -> bool {
        w is Object
            && entries_view(w).len() == 3
            && entries_view(w)[0] == ("invoice_hash"@, Wire::Str(self.invoice_hash))
            && entries_view(w)[1] == ("invoice"@, Wire::Str(self.invoice))
            && entries_view(w)[2] == ("amount"@, Wire::Str(self.amount))
    }

    /// Whether the object `o` holds, under each field's name, what the
    /// field's position in `items` holds.
    pub open spec fn round_trips(o: Wire, items: Seq<Wire>) -> bool {
        entries_view(o)[0].0 == "invoice_hash"@ && same_value(entries_view(o)[0].1, item_at(items, 0))
            && entries_view(o)[1].0 == "invoice"@ && same_value(entries_view(o)[1].1, item_at(items, 1))
            && entries_view(o)[2].0 == "amount"@ && same_value(entries_view(o)[2].1, item_at(items, 4))
    }

    /// Writes the record as an object of its named fields, in order;
    /// reserved positions are not written.
    pub fn into_object(self) -> (r: Wire)
        ensures
            self.written_as(r),
    {
        let InvoiceInfo { invoice_hash, invoice, amount } = self;
        let mut e: Vec<(String, Wire)> = Vec::new();
        e.push((String::from_str("invoice_hash"), Wire::Str(invoice_hash)));
        e.push((String::from_str("invoice"), Wire::Str(invoice)));
        e.push((String::from_str("amount"), Wire::Str(amount)));
        let r = Wire::Object(e);
        assert(entries_view(r).len() == 3);
        r
    }

}

/// A InvoiceInfo decoded from a well-formed array and written back as an
/// object holds, under each field's name, the value of that field's position.
pub proof fn lemma_invoice_info_round_trip(v: InvoiceInfo, items: Seq<Wire>, o: Wire)
    requires
        conforms(items, invoice_info_schema()),
        v.decoded_from(items),
        v.written_as(o),
    ensures
        InvoiceInfo::round_trips(o, items),
{
    assert(fits(item_at(items, 0), invoice_info_schema()[0]));
    assert(fits(item_at(items, 1), invoice_info_schema()[1]));
    assert(fits(item_at(items, 4), invoice_info_schema()[4]));
}

/// What a transfer between wallets did.
#[derive(Debug)]
pub struct TransferRespInfo {
    pub mts_updated: Option<i64>,
    pub wallet_from: String,
    pub wallet_to: String,
    pub currency: String,
    pub currency_to: String,
    pub amount: Decimal,
}

/// The positions of a TransferRespInfo, in order.
pub open spec fn transfer_resp_info_schema() -> Seq<Slot> {
    seq![Slot::OptInt, Slot::Str, Slot::Str, Slot::Skip, Slot::Str, Slot::Str, Slot::Skip, Slot::Dec]
}

fn transfer_resp_info_slots() -> (r: Vec<Slot>)
    ensures
        r@ == transfer_resp_info_schema(),
{
    vec![Slot::OptInt, Slot::Str, Slot::Str, Slot::Skip, Slot::Str, Slot::Str, Slot::Skip, Slot::Dec]
}

impl TransferRespInfo {
    /// Whether `w` decodes as a TransferRespInfo.
    pub open spec fn wire_ok(w: Wire) -> bool {
        array_conforms(w, transfer_resp_info_schema())
    }

    /// Whether each named field holds what its position in `items` holds.
    pub open spec fn decoded_from(self, items: Seq<Wire>) -> bool {
        self.mts_updated == opt_int_of(item_at(items, 0))
            && self.wallet_from@ == str_of(item_at(items, 1))
            && self.wallet_to@ == str_of(item_at(items, 2))
            && self.currency@ == str_of(item_at(items, 4))
            && self.currency_to@ == str_of(item_at(items, 5))
            && self.amount == dec_of(item_at(items, 7))
    }

    /// The error that decoding `w` as a TransferRespInfo ends in.
    pub open spec fn rejects(e: ClientError, w: Wire) -> bool {
        protocol_error(e, w, "TransferRespInfo"@)
    }

    /// Decodes a TransferRespInfo from its positional form; elements past the last
    /// declared position are ignored.
    pub fn from_wire(w: Wire) -> (r: Result<TransferRespInfo, ClientError>)
        ensures
            r is Ok <==> Self::wire_ok(w),
            r matches Ok(v) ==> v.decoded_from(elems(w)),
            r matches Err(e) ==> Self::rejects(e, w),
    {
        let mut items = match expect_array(w, &transfer_resp_info_slots(), "TransferRespInfo") {
            Ok(items) => items,
            Err(e) => return Err(e),
        };
        let null = Wire::Null;
        let mts_updated = read_opt_int(item(&items, 0, &null));
        let wallet_from = read_str(item(&items, 1, &null));
        let wallet_to = read_str(item(&items, 2, &null));
        let currency = read_str(item(&items, 4, &null));
        let currency_to = read_str(item(&items, 5, &null));
        let amount = read_dec(item(&items, 7, &null));
        Ok(TransferRespInfo { mts_updated, wallet_from, wallet_to, currency, currency_to, amount })
    }
    /// Whether `w` is this record written as an object of its named fields.
    pub open spec fn written_as(self, w: Wire) -> bool {
        w is Object
            && entries_view(w).len() == 6
            && entries_view(w)[0] == ("mts_updated"@, opt_int_wire(self.mts_updated))
            && entries_view(w)[1] == ("wallet_from"@, Wire::Str(self.wallet_from))
            && entries_view(w)[2] == ("wallet_to"@, Wire::Str(self.wallet_to))
            && entries_view(w)[3] == ("currency"@, Wire::Str(self.currency))
            && entries_view(w)[4] == ("currency_to"@, Wire::Str(self.currency_to))
            && entries_view(w)[5] == ("amount"@, Wire::Num(self.amount))
    }

    /// Whether the object `o` holds, under each field's name, what the
    /// field's position in `items` holds.
    pub open spec fn round_trips(o: Wire, items: Seq<Wire>) -> bool {
        entries_view(o)[0].0 == "mts_updated"@ && same_value(entries_view(o)[0].1, item_at(items, 0))
            && entries_view(o)[1].0 == "wallet_from"@ && same_value(entries_view(o)[1].1, item_at(items, 1))
            && entries_view(o)[2].0 == "wallet_to"@ && same_value(entries_view(o)[2].1, item_at(items, 2))
            && entries_view(o)[3].0 == "currency"@ && same_value(entries_view(o)[3].1, item_at(items, 4))
            && entries_view(o)[4].0 == "currency_to"@ && same_value(entries_view(o)[4].1, item_at(items, 5))
            && entries_view(o)[5].0 == "amount"@ && same_value(entries_view(o)[5].1, item_at(items, 7))
    }

    /// Writes the record as an object of its named fields, in order;
    /// reserved positions are not written.
    pub fn into_object(self) -> (r: Wire)
        ensures
            self.written_as(r),
    {
        let TransferRespInfo {
            mts_updated,
            wallet_from,
            wallet_to,
            currency,
            currency_to,
            amount,
        } = self;
        let mut e: Vec<(String, Wire)> = Vec::new();
        e.push((String::from_str("mts_updated"), match mts_updated {
            Some(x) => Wire::Int(x),
            None => Wire::Null,
        }));
        e.push((String::from_str("wallet_from"), Wire::Str(wallet_from)));
        e.push((String::from_str("wallet_to"), Wire::Str(wallet_to)));
        e.push((String::from_str("currency"), Wire::Str(currency)));
        e.push((String::from_str("currency_to"), Wire::Str(currency_to)));
        e.push((String::from_str("amount"), Wire::Num(amount)));
        let r = Wire::Object(e);
        assert(entries_view(r).len() == 6);
        r
    }

}

/// A TransferRespInfo decoded from a well-formed array and written back as an
/// object holds, under each field's name, the value of that field's position.
pub proof fn lemma_transfer_resp_info_round_trip(v: TransferRespInfo, items: Seq<Wire>, o: Wire)
    requires
        conforms(items, transfer_resp_info_schema()),
        v.decoded_from(items),
        v.written_as(o),
    ensures
        TransferRespInfo::round_trips(o, items),
{
    assert(fits(item_at(items, 0), transfer_resp_info_schema()[0]));
    assert(fits(item_at(items, 1), transfer_resp_info_schema()[1]));
    assert(fits(item_at(items, 2), transfer_resp_info_schema()[2]));
    assert(fits(item_at(items, 4), transfer_resp_info_schema()[4]));
    assert(fits(item_at(items, 5), transfer_resp_info_schema()[5]));
    assert(fits(item_at(items, 7), transfer_resp_info_schema()[7]));
}

/// The notification envelope answering a transfer.
#[derive(Debug)]
pub struct TransferResp {
    pub mts: i64,
    pub notification_type: String,
    pub message_id: Option<String>,
    pub info: TransferRespInfo,
    pub code: Option<String>,
    pub status: String,
    pub text: Option<String>,
}

/// The positions of a TransferResp, in order.
pub open spec fn transfer_resp_schema() -> Seq<Slot> {
    seq![Slot::Int, Slot::Str, Slot::OptStr, Slot::Skip, Slot::Any, Slot::OptStr, Slot::Str, Slot::OptStr]
}

fn transfer_resp_slots() -> (r: Vec<Slot>)
    ensures
        r@ == transfer_resp_schema(),
{
    vec![Slot::Int, Slot::Str, Slot::OptStr, Slot::Skip, Slot::Any, Slot::OptStr, Slot::Str, Slot::OptStr]
}

impl TransferResp {
    /// Whether `w` decodes as a TransferResp.
    pub open spec fn wire_ok(w: Wire) -> bool {
        array_conforms(w, transfer_resp_schema())
            && succeeded(elems(w))
            && TransferRespInfo::wire_ok(item_at(elems(w), 4))
    }

    /// Whether each named field holds what its position in `items` holds.
    pub open spec fn decoded_from(self, items: Seq<Wire>) -> bool {
        self.mts == int_of(item_at(items, 0))
            && self.notification_type@ == str_of(item_at(items, 1))
            && opt_view(self.message_id) == opt_str_of(item_at(items, 2))
            && self.info.decoded_from(elems(item_at(items, 4)))
            && opt_view(self.code) == opt_str_of(item_at(items, 5))
            && self.status@ == str_of(item_at(items, 6))
            && opt_view(self.text) == opt_str_of(item_at(items, 7))
    }

    /// The error that decoding `w` as a TransferResp ends in.
    pub open spec fn rejects(e: ClientError, w: Wire) -> bool {
        if !array_conforms(w, transfer_resp_schema()) {
            protocol_error(e, w, "TransferResp"@)
        } else if !succeeded(elems(w)) {
            e is Exchange
        } else {
            TransferRespInfo::rejects(e, item_at(elems(w), 4))
        }
    }

    /// Decodes a TransferResp from its positional form; elements past the last
    /// declared position are ignored.
    pub fn from_wire(w: Wire) -> (r: Result<TransferResp, ClientError>)
        ensures
            r is Ok <==> Self::wire_ok(w),
            r matches Ok(v) ==> v.decoded_from(elems(w)),
            array_conforms(w, transfer_resp_schema()) && !succeeded(elems(w)) ==> rejected(r, elems(w)),
            r matches Err(e) ==> (e is Exchange <==> array_conforms(w, transfer_resp_schema()) && !succeeded(elems(w))),
            r matches Err(e) ==> Self::rejects(e, w),
    {
        let mut items = match expect_array(w, &transfer_resp_slots(), "TransferResp") {
            Ok(items) => items,
            Err(e) => return Err(e),
        };
        let null = Wire::Null;
        let mts = read_int(item(&items, 0, &null));
        let notification_type = read_str(item(&items, 1, &null));
        let message_id = read_opt_str(item(&items, 2, &null));
        let code = read_opt_str(item(&items, 5, &null));
        let status = read_str(item(&items, 6, &null));
        let text = read_opt_str(item(&items, 7, &null));
        if !same_text(status.as_str(), "SUCCESS") {
            let code = read_any(take_item(&mut items, 5));
            return Err(ClientError::Exchange { status, code, text });
        }
        let info = match TransferRespInfo::from_wire(take_item(&mut items, 4)) {
            Ok(v) => v,
            Err(e) => return Err(e),
        };
        Ok(TransferResp { mts, notification_type, message_id, info, code, status, text })
    }
    /// Whether `w` is this record written as an object of its named fields.
    pub open spec fn written_as(self, w: Wire) -> bool {
        w is Object
            && entries_view(w).len() == 7
            && entries_view(w)[0] == ("mts"@, Wire::Int(self.mts))
            && entries_view(w)[1] == ("notification_type"@, Wire::Str(self.notification_type))
            && entries_view(w)[2] == ("message_id"@, opt_str_wire(self.message_id))
            && entries_view(w)[3].0 == "info"@ && self.info.written_as(entries_view(w)[3].1)
            && entries_view(w)[4] == ("code"@, opt_str_wire(self.code))
            && entries_view(w)[5] == ("status"@, Wire::Str(self.status))
            && entries_view(w)[6] == ("text"@, opt_str_wire(self.text))
    }

    /// Whether the object `o` holds, under each field's name, what the
    /// field's position in `items` holds.
    pub open spec fn round_trips(o: Wire, items: Seq<Wire>) -> bool {
        entries_view(o)[0].0 == "mts"@ && same_value(entries_view(o)[0].1, item_at(items, 0))
            && entries_view(o)[1].0 == "notification_type"@ && same_value(entries_view(o)[1].1, item_at(items, 1))
            && entries_view(o)[2].0 == "message_id"@ && same_value(entries_view(o)[2].1, item_at(items, 2))
            && entries_view(o)[3].0 == "info"@ && TransferRespInfo::round_trips(entries_view(o)[3].1, elems(item_at(items, 4)))
            && entries_view(o)[4].0 == "code"@ && same_value(entries_view(o)[4].1, item_at(items, 5))
            && entries_view(o)[5].0 == "status"@ && same_value(entries_view(o)[5].1, item_at(items, 6))
            && entries_view(o)[6].0 == "text"@ && same_value(entries_view(o)[6].1, item_at(items, 7))
    }

    /// Writes the record as an object of its named fields, in order;
    /// reserved positions are not written.
    pub fn into_object(self) -> (r: Wire)
        ensures
            self.written_as(r),
    {
        let TransferResp { mts, notification_type, message_id, info, code, status, text } = self;
        let mut e: Vec<(String, Wire)> = Vec::new();
        e.push((String::from_str("mts"), Wire::Int(mts)));
        e.push((String::from_str("notification_type"), Wire::Str(notification_type)));
        e.push((String::from_str("message_id"), match message_id {
            Some(x) => Wire::Str(x),
            None => Wire::Null,
        }));
        e.push((String::from_str("info"), info.into_object()));
        e.push((String::from_str("code"), match code {
            Some(x) => Wire::Str(x),
            None => Wire::Null,
        }));
        e.push((String::from_str("status"), Wire::Str(status)));
        e.push((String::from_str("text"), match text {
            Some(x) => Wire::Str(x),
            None => Wire::Null,
        }));
        let r = Wire::Object(e);
        assert(entries_view(r).len() == 7);
        r
    }

}

/// A TransferResp decoded from a well-formed array and written back as an
/// object holds, under each field's name, the value of that field's position.
pub proof fn lemma_transfer_resp_round_trip(v: TransferResp, items: Seq<Wire>, o: Wire)
    requires
        conforms(items, transfer_resp_schema()),
        TransferRespInfo::wire_ok(item_at(items, 4)),
        v.decoded_from(items),
        v.written_as(o),
    ensures
        TransferResp::round_trips(o, items),
{
    assert(fits(item_at(items, 0), transfer_resp_schema()[0]));
    assert(fits(item_at(items, 1), transfer_resp_schema()[1]));
    assert(fits(item_at(items, 2), transfer_resp_schema()[2]));
    lemma_transfer_resp_info_round_trip(v.info, elems(item_at(items, 4)), entries_view(o)[3].1);
    assert(fits(item_at(items, 5), transfer_resp_schema()[5]));
    assert(fits(item_at(items, 6), transfer_resp_schema()[6]));
    assert(fits(item_at(items, 7), transfer_resp_schema()[7]));
}

/// A submitted withdrawal.
#[derive(Debug)]
pub struct WithdrawData {
    pub withdrawal_id: i64,
    pub method: String,
    pub payment_id: Option<String>,
    pub wallet: String,
    pub amount: Decimal,
    pub withdraw_fee: Decimal,
}

/// The positions of a WithdrawData, in order.
pub open spec fn withdraw_data_schema() -> Seq<Slot> {
    seq![Slot::Int, Slot::Skip, Slot::Str, Slot::OptStr, Slot::Str, Slot::Dec, Slot::Skip, Slot::Skip, Slot::Dec]
}

fn withdraw_data_slots() -> (r: Vec<Slot>)
    ensures
        r@ == withdraw_data_schema(),
{
    vec![Slot::Int, Slot::Skip, Slot::Str, Slot::OptStr, Slot::Str, Slot::Dec, Slot::Skip, Slot::Skip, Slot::Dec]
}

impl WithdrawData {
    /// Whether `w` decodes as a WithdrawData.
    pub open spec fn wire_ok(w: Wire) -> bool {
        array_conforms(w, withdraw_data_schema())
    }

    /// Whether each named field holds what its position in `items` holds.
    pub open spec fn decoded_from(self, items: Seq<Wire>) -> bool {
        self.withdrawal_id == int_of(item_at(items, 0))
            && self.method@ == str_of(item_at(items, 2))
            && opt_view(self.payment_id) == opt_str_of(item_at(items, 3))
            && self.wallet@ == str_of(item_at(items, 4))
            && self.amount == dec_of(item_at(items, 5))
            && self.withdraw_fee == dec_of(item_at(items, 8))
    }

    /// The error that decoding `w` as a WithdrawData ends in.
    pub open spec fn rejects(e: ClientError, w: Wire) -> bool {
        protocol_error(e, w, "WithdrawData"@)
    }

    /// Decodes a WithdrawData from its positional form; elements past the last
    /// declared position are ignored.
    pub fn from_wire(w: Wire) -> (r: Result<WithdrawData, ClientError>)
        ensures
            r is Ok <==> Self::wire_ok(w),
            r matches Ok(v) ==> v.decoded_from(elems(w)),
            r matches Err(e) ==> Self::rejects(e, w),
    {
        let mut items = match expect_array(w, &withdraw_data_slots(), "WithdrawData") {
            Ok(items) => items,
            Err(e) => return Err(e),
        };
        let null = Wire::Null;
        let withdrawal_id = read_int(item(&items, 0, &null));
        let method = read_str(item(&items, 2, &null));
        let payment_id = read_opt_str(item(&items, 3, &null));
        let wallet = read_str(item(&items, 4, &null));
        let amount = read_dec(item(&items, 5, &null));
        let withdraw_fee = read_dec(item(&items, 8, &null));
        Ok(WithdrawData { withdrawal_id, method, payment_id, wallet, amount, withdraw_fee })
    }
    /// Whether `w` is this record written as an object of its named fields.
    pub open spec fn written_as(self, w: Wire) -> bool {
        w is Object
            && entries_view(w).len() == 6
            && entries_view(w)[0] == ("withdrawal_id"@, Wire::Int(self.withdrawal_id))
            && entries_view(w)[1] == ("method"@, Wire::Str(self.method))
            && entries_view(w)[2] == ("payment_id"@, opt_str_wire(self.payment_id))
            && entries_view(w)[3] == ("wallet"@, Wire::Str(self.wallet))
            && entries_view(w)[4] == ("amount"@, Wire::Num(self.amount))
            && entries_view(w)[5] == ("withdraw_fee"@, Wire::Num(self.withdraw_fee))
    }

    /// Whether the object `o` holds, under each field's name, what the
    /// field's position in `items` holds.
    pub open spec fn round_trips(o: Wire, items: Seq<Wire>) -> bool {
        entries_view(o)[0].0 == "withdrawal_id"@ && same_value(entries_view(o)[0].1, item_at(items, 0))
            && entries_view(o)[1].0 == "method"@ && same_value(entries_view(o)[1].1, item_at(items, 2))
            && entries_view(o)[2].0 == "payment_id"@ && same_value(entries_view(o)[2].1, item_at(items, 3))
            && entries_view(o)[3].0 == "wallet"@ && same_value(entries_view(o)[3].1, item_at(items, 4))
            && entries_view(o)[4].0 == "amount"@ && same_value(entries_view(o)[4].1, item_at(items, 5))
            && entries_view(o)[5].0 == "withdraw_fee"@ && same_value(entries_view(o)[5].1, item_at(items, 8))
    }

    /// Writes the record as an object of its named fields, in order;
    /// reserved positions are not written.
    pub fn into_object(self) -> (r: Wire)
        ensures
            self.written_as(r),
    {
        let WithdrawData { withdrawal_id, method, payment_id, wallet, amount, withdraw_fee } = self;
        let mut e: Vec<(String, Wire)> = Vec::new();
        e.push((String::from_str("withdrawal_id"), Wire::Int(withdrawal_id)));
        e.push((String::from_str("method"), Wire::Str(method)));
        e.push((String::from_str("payment_id"), match payment_id {
            Some(x) => Wire::Str(x),
            None => Wire::Null,
        }));
        e.push((String::from_str("wallet"), Wire::Str(wallet)));
        e.push((String::from_str("amount"), Wire::Num(amount)));
        e.push((String::from_str("withdraw_fee"), Wire::Num(withdraw_fee)));
        let r = Wire::Object(e);
        assert(entries_view(r).len() == 6);
        r
    }

}

/// A WithdrawData decoded from a well-formed array and written back as an
/// object holds, under each field's name, the value of that field's position.
pub proof fn lemma_withdraw_data_round_trip(v: WithdrawData, items: Seq<Wire>, o: Wire)
    requires
        conforms(items, withdraw_data_schema()),
        v.decoded_from(items),
        v.written_as(o),
    ensures
        WithdrawData::round_trips(o, items),
{
    assert(fits(item_at(items, 0), withdraw_data_schema()[0]));
    assert(fits(item_at(items, 2), withdraw_data_schema()[2]));
    assert(fits(item_at(items, 3), withdraw_data_schema()[3]));
    assert(fits(item_at(items, 4), withdraw_data_schema()[4]));
    assert(fits(item_at(items, 5), withdraw_data_schema()[5]));
    assert(fits(item_at(items, 8), withdraw_data_schema()[8]));
}

/// The notification envelope answering a withdrawal.
#[derive(Debug)]
pub struct WithdrawResp {
    pub mts: i64,
    pub notification_type: String,
    pub message_id: Option<i64>,
    pub data: WithdrawData,
    pub code: Option<i64>,
    pub status: String,
    pub text: Option<String>,
}

/// The positions of a WithdrawResp, in order.
pub open spec fn withdraw_resp_schema() -> Seq<Slot> {
    seq![Slot::Int, Slot::Str, Slot::OptInt, Slot::Skip, Slot::Any, Slot::OptInt, Slot::Str, Slot::OptStr]
}

fn withdraw_resp_slots() -> (r: Vec<Slot>)
    ensures
        r@ == withdraw_resp_schema(),
{
    vec![Slot::Int, Slot::Str, Slot::OptInt, Slot::Skip, Slot::Any, Slot::OptInt, Slot::Str, Slot::OptStr]
}

impl WithdrawResp {
    /// Whether `w` decodes as a WithdrawResp.
    pub open spec fn wire_ok(w: Wire) -> bool {
        array_conforms(w, withdraw_resp_schema())
            && succeeded(elems(w))
            && WithdrawData::wire_ok(item_at(elems(w), 4))
    }

    /// Whether each named field holds what its position in `items` holds.
    pub open spec fn decoded_from(self, items: Seq<Wire>) -> bool {
        self.mts == int_of(item_at(items, 0))
            && self.notification_type@ == str_of(item_at(items, 1))
            && self.message_id == opt_int_of(item_at(items, 2))
            && self.data.decoded_from(elems(item_at(items, 4)))
            && self.code == opt_int_of(item_at(items, 5))
            && self.status@ == str_of(item_at(items, 6))
            && opt_view(self.text) == opt_str_of(item_at(items, 7))
    }

    /// The error that decoding `w` as a WithdrawResp ends in.
    pub open spec fn rejects(e: ClientError, w: Wire) -> bool {
        if !array_conforms(w, withdraw_resp_schema()) {
            protocol_error(e, w, "WithdrawResp"@)
        } else if !succeeded(elems(w)) {
            e is Exchange
        } else {
            WithdrawData::rejects(e, item_at(elems(w), 4))
        }
    }

    /// Decodes a WithdrawResp from its positional form; elements past the last
    /// declared position are ignored.
    pub fn from_wire(w: Wire) -> (r: Result<WithdrawResp, ClientError>)
        ensures
            r is Ok <==> Self::wire_ok(w),
            r matches Ok(v) ==> v.decoded_from(elems(w)),
            array_conforms(w, withdraw_resp_schema()) && !succeeded(elems(w)) ==> rejected(r, elems(w)),
            r matches Err(e) ==> (e is Exchange <==> array_conforms(w, withdraw_resp_schema()) && !succeeded(elems(w))),
            r matches Err(e) ==> Self::rejects(e, w),
    {
        let mut items = match expect_array(w, &withdraw_resp_slots(), "WithdrawResp") {
            Ok(items) => items,
            Err(e) => return Err(e),
        };
        let null = Wire::Null;
        let mts = read_int(item(&items, 0, &null));
        let notification_type = read_str(item(&items, 1, &null));
        let message_id = read_opt_int(item(&items, 2, &null));
        let code = read_opt_int(item(&items, 5, &null));
        let status = read_str(item(&items, 6, &null));
        let text = read_opt_str(item(&items, 7, &null));
        if !same_text(status.as_str(), "SUCCESS") {
            let code = read_any(take_item(&mut items, 5));
            return Err(ClientError::Exchange { status, code, text });
        }
        let data = match WithdrawData::from_wire(take_item(&mut items, 4)) {
            Ok(v) => v,
            Err(e) => return Err(e),
        };
        Ok(WithdrawResp { mts, notification_type, message_id, data, code, status, text })
    }
    /// Whether `w` is this record written as an object of its named fields.
    pub open spec fn written_as(self, w: Wire) -> bool {
        w is Object
            && entries_view(w).len() == 7
            && entries_view(w)[0] == ("mts"@, Wire::Int(self.mts))
            && entries_view(w)[1] == ("notification_type"@, Wire::Str(self.notification_type))
            && entries_view(w)[2] == ("message_id"@, opt_int_wire(self.message_id))
            && entries_view(w)[3].0 == "data"@ && self.data.written_as(entries_view(w)[3].1)
            && entries_view(w)[4] == ("code"@, opt_int_wire(self.code))
            && entries_view(w)[5] == ("status"@, Wire::Str(self.status))
            && entries_view(w)[6] == ("text"@, opt_str_wire(self.text))
    }

    /// Whether the object `o` holds, under each field's name, what the
    /// field's position in `items` holds.
    pub open spec fn round_trips(o: Wire, items: Seq<Wire>) -> bool {
        entries_view(o)[0].0 == "mts"@ && same_value(entries_view(o)[0].1, item_at(items, 0))
            && entries_view(o)[1].0 == "notification_type"@ && same_value(entries_view(o)[1].1, item_at(items, 1))
            && entries_view(o)[2].0 == "message_id"@ && same_value(entries_view(o)[2].1, item_at(items, 2))
            && entries_view(o)[3].0 == "data"@ && WithdrawData::round_trips(entries_view(o)[3].1, elems(item_at(items, 4)))
            && entries_view(o)[4].0 == "code"@ && same_value(entries_view(o)[4].1, item_at(items, 5))
            && entries_view(o)[5].0 == "status"@ && same_value(entries_view(o)[5].1, item_at(items, 6))
            && entries_view(o)[6].0 == "text"@ && same_value(entries_view(o)[6].1, item_at(items, 7))
    }

    /// Writes the record as an object of its named fields, in order;
    /// reserved positions are not written.
    pub fn into_object(self) -> (r: Wire)
        ensures
            self.written_as(r),
    {
        let WithdrawResp { mts, notification_type, message_id, data, code, status, text } = self;
        let mut e: Vec<(String, Wire)> = Vec::new();
        e.push((String::from_str("mts"), Wire::Int(mts)));
        e.push((String::from_str("notification_type"), Wire::Str(notification_type)));
        e.push((String::from_str("message_id"), match message_id {
            Some(x) => Wire::Int(x),
            None => Wire::Null,
        }));
        e.push((String::from_str("data"), data.into_object()));
        e.push((String::from_str("code"), match code {
            Some(x) => Wire::Int(x),
            None => Wire::Null,
        }));
        e.push((String::from_str("status"), Wire::Str(status)));
        e.push((String::from_str("text"), match text {
            Some(x) => Wire::Str(x),
            None => Wire::Null,
        }));
        let r = Wire::Object(e);
        assert(entries_view(r).len() == 7);
        r
    }

}

/// A WithdrawResp decoded from a well-formed array and written back as an
/// object holds, under each field's name, the value of that field's position.
pub proof fn lemma_withdraw_resp_round_trip(v: WithdrawResp, items: Seq<Wire>, o: Wire)
    requires
        conforms(items, withdraw_resp_schema()),
        WithdrawData::wire_ok(item_at(items, 4)),
        v.decoded_from(items),
        v.written_as(o),
    ensures
        WithdrawResp::round_trips(o, items),
{
    assert(fits(item_at(items, 0), withdraw_resp_schema()[0]));
    assert(fits(item_at(items, 1), withdraw_resp_schema()[1]));
    assert(fits(item_at(items, 2), withdraw_resp_schema()[2]));
    lemma_withdraw_data_round_trip(v.data, elems(item_at(items, 4)), entries_view(o)[3].1);
    assert(fits(item_at(items, 5), withdraw_resp_schema()[5]));
    assert(fits(item_at(items, 6), withdraw_resp_schema()[6]));
    assert(fits(item_at(items, 7), withdraw_resp_schema()[7]));
}

/// One deposit or withdrawal of the account.
#[derive(Debug)]
pub struct MovementResp {
    pub id: i64,
    pub currency: String,
    pub method: String,
    pub remark: Option<String>,
    pub mts_started: i64,
    pub mts_updated: i64,
    pub status: String,
    pub amount: Decimal,
    pub fees: Decimal,
    pub destination_address: Option<String>,
    pub memo: Option<String>,
    pub transaction_id: Option<String>,
    pub movement_note: Option<String>,
    pub bank_fees: Option<Decimal>,
    pub bank_router_id: Option<i64>,
    pub external_bank_mov_id: Option<String>,
    pub external_bank_mov_status: Option<String>,
    pub external_bank_mov_description: Option<String>,
    pub external_bank_mov_acc_info: Option<Wire>,
}

/// The positions of a MovementResp, in order.
pub open spec fn movement_resp_schema() -> Seq<Slot> {
    seq![Slot::Int, Slot::Str, Slot::Str, Slot::Skip, Slot::OptStr, Slot::Int, Slot::Int, Slot::Skip, Slot::Skip, Slot::Str, Slot::Skip, Slot::Skip, Slot::Dec, Slot::Dec, Slot::Skip, Slot::Skip, Slot::OptStr, Slot::OptStr, Slot::Skip, Slot::Skip, Slot::OptStr, Slot::OptStr, Slot::Skip, Slot::Skip, Slot::OptDec, Slot::OptInt, Slot::Skip, Slot::Skip, Slot::OptStr, Slot::OptStr, Slot::OptStr, Slot::Any]
}

fn movement_resp_slots() -> (r: Vec<Slot>)
    ensures
        r@ == movement_resp_schema(),
{
    vec![Slot::Int, Slot::Str, Slot::Str, Slot::Skip, Slot::OptStr, Slot::Int, Slot::Int, Slot::Skip, Slot::Skip, Slot::Str, Slot::Skip, Slot::Skip, Slot::Dec, Slot::Dec, Slot::Skip, Slot::Skip, Slot::OptStr, Slot::OptStr, Slot::Skip, Slot::Skip, Slot::OptStr, Slot::OptStr, Slot::Skip, Slot::Skip, Slot::OptDec, Slot::OptInt, Slot::Skip, Slot::Skip, Slot::OptStr, Slot::OptStr, Slot::OptStr, Slot::Any]
}

impl MovementResp {
    /// Whether `w` decodes as a MovementResp.
    pub open spec fn wire_ok(w: Wire) -> bool {
        array_conforms(w, movement_resp_schema())
    }

    /// Whether each named field holds what its position in `items` holds.
    pub open spec fn decoded_from(self, items: Seq<Wire>) -> bool {
        self.id == int_of(item_at(items, 0))
            && self.currency@ == str_of(item_at(items, 1))
            && self.method@ == str_of(item_at(items, 2))
            && opt_view(self.remark) == opt_str_of(item_at(items, 4))
            && self.mts_started == int_of(item_at(items, 5))
            && self.mts_updated == int_of(item_at(items, 6))
            && self.status@ == str_of(item_at(items, 9))
            && self.amount == dec_of(item_at(items, 12))
            && self.fees == dec_of(item_at(items, 13))
            && opt_view(self.destination_address) == opt_str_of(item_at(items, 16))
            && opt_view(self.memo) == opt_str_of(item_at(items, 17))
            && opt_view(self.transaction_id) == opt_str_of(item_at(items, 20))
            && opt_view(self.movement_note) == opt_str_of(item_at(items, 21))
            && self.bank_fees == opt_dec_of(item_at(items, 24))
            && self.bank_router_id == opt_int_of(item_at(items, 25))
            && opt_view(self.external_bank_mov_id) == opt_str_of(item_at(items, 28))
            && opt_view(self.external_bank_mov_status) == opt_str_of(item_at(items, 29))
            && opt_view(self.external_bank_mov_description) == opt_str_of(item_at(items, 30))
            && self.external_bank_mov_acc_info == opt_any_of(item_at(items, 31))
    }

    /// The error that decoding `w` as a MovementResp ends in.
    pub open spec fn rejects(e: ClientError, w: Wire) -> bool {
        protocol_error(e, w, "MovementResp"@)
    }

    /// Decodes a MovementResp from its positional form; elements past the last
    /// declared position are ignored.
    pub fn from_wire(w: Wire) -> (r: Result<MovementResp, ClientError>)
        ensures
            r is Ok <==> Self::wire_ok(w),
            r matches Ok(v) ==> v.decoded_from(elems(w)),
            r matches Err(e) ==> Self::rejects(e, w),
    {
        let mut items = match expect_array(w, &movement_resp_slots(), "MovementResp") {
            Ok(items) => items,
            Err(e) => return Err(e),
        };
        let null = Wire::Null;
        let id = read_int(item(&items, 0, &null));
        let currency = read_str(item(&items, 1, &null));
        let method = read_str(item(&items, 2, &null));
        let remark = read_opt_str(item(&items, 4, &null));
        let mts_started = read_int(item(&items, 5, &null));
        let mts_updated = read_int(item(&items, 6, &null));
        let status = read_str(item(&items, 9, &null));
        let amount = read_dec(item(&items, 12, &null));
        let fees = read_dec(item(&items, 13, &null));
        let destination_address = read_opt_str(item(&items, 16, &null));
        let memo = read_opt_str(item(&items, 17, &null));
        let transaction_id = read_opt_str(item(&items, 20, &null));
        let movement_note = read_opt_str(item(&items, 21, &null));
        let bank_fees = read_opt_dec(item(&items, 24, &null));
        let bank_router_id = read_opt_int(item(&items, 25, &null));
        let external_bank_mov_id = read_opt_str(item(&items, 28, &null));
        let external_bank_mov_status = read_opt_str(item(&items, 29, &null));
        let external_bank_mov_description = read_opt_str(item(&items, 30, &null));
        let external_bank_mov_acc_info = read_any(take_item(&mut items, 31));
        Ok(MovementResp {
            id,
            currency,
            method,
            remark,
            mts_started,
            mts_updated,
            status,
            amount,
            fees,
            destination_address,
            memo,
            transaction_id,
            movement_note,
            bank_fees,
            bank_router_id,
            external_bank_mov_id,
            external_bank_mov_status,
            external_bank_mov_description,
            external_bank_mov_acc_info,
        })
    }
    /// Whether `w` is this record written as an object of its named fields.
    pub open spec fn written_as(self, w: Wire) -> bool {
        w is Object
            && entries_view(w).len() == 19
            && entries_view(w)[0] == ("id"@, Wire::Int(self.id))
            && entries_view(w)[1] == ("currency"@, Wire::Str(self.currency))
            && entries_view(w)[2] == ("method"@, Wire::Str(self.method))
            && entries_view(w)[3] == ("remark"@, opt_str_wire(self.remark))
            && entries_view(w)[4] == ("mts_started"@, Wire::Int(self.mts_started))
            && entries_view(w)[5] == ("mts_updated"@, Wire::Int(self.mts_updated))
            && entries_view(w)[6] == ("status"@, Wire::Str(self.status))
            && entries_view(w)[7] == ("amount"@, Wire::Num(self.amount))
            && entries_view(w)[8] == ("fees"@, Wire::Num(self.fees))
            && entries_view(w)[9] == ("destination_address"@, opt_str_wire(self.destination_address))
            && entries_view(w)[10] == ("memo"@, opt_str_wire(self.memo))
            && entries_view(w)[11] == ("transaction_id"@, opt_str_wire(self.transaction_id))
            && entries_view(w)[12] == ("movement_note"@, opt_str_wire(self.movement_note))
            && entries_view(w)[13] == ("bank_fees"@, opt_dec_wire(self.bank_fees))
            && entries_view(w)[14] == ("bank_router_id"@, opt_int_wire(self.bank_router_id))
            && entries_view(w)[15] == ("external_bank_mov_id"@, opt_str_wire(self.external_bank_mov_id))
            && entries_view(w)[16] == ("external_bank_mov_status"@, opt_str_wire(self.external_bank_mov_status))
            && entries_view(w)[17] == ("external_bank_mov_description"@, opt_str_wire(self.external_bank_mov_description))
            && entries_view(w)[18] == ("external_bank_mov_acc_info"@, opt_any_wire(self.external_bank_mov_acc_info))
    }

    /// Whether the object `o` holds, under each field's name, what the
    /// field's position in `items` holds.
    pub open spec fn round_trips(o: Wire, items: Seq<Wire>) -> bool {
        entries_view(o)[0].0 == "id"@ && same_value(entries_view(o)[0].1, item_at(items, 0))
            && entries_view(o)[1].0 == "currency"@ && same_value(entries_view(o)[1].1, item_at(items, 1))
            && entries_view(o)[2].0 == "method"@ && same_value(entries_view(o)[2].1, item_at(items, 2))
            && entries_view(o)[3].0 == "remark"@ && same_value(entries_view(o)[3].1, item_at(items, 4))
            && entries_view(o)[4].0 == "mts_started"@ && same_value(entries_view(o)[4].1, item_at(items, 5))
            && entries_view(o)[5].0 == "mts_updated"@ && same_value(entries_view(o)[5].1, item_at(items, 6))
            && entries_view(o)[6].0 == "status"@ && same_value(entries_view(o)[6].1, item_at(items, 9))
            && entries_view(o)[7].0 == "amount"@ && same_value(entries_view(o)[7].1, item_at(items, 12))
            && entries_view(o)[8].0 == "fees"@ && same_value(entries_view(o)[8].1, item_at(items, 13))
            && entries_view(o)[9].0 == "destination_address"@ && same_value(entries_view(o)[9].1, item_at(items, 16))
            && entries_view(o)[10].0 == "memo"@ && same_value(entries_view(o)[10].1, item_at(items, 17))
            && entries_view(o)[11].0 == "transaction_id"@ && same_value(entries_view(o)[11].1, item_at(items, 20))
            && entries_view(o)[12].0 == "movement_note"@ && same_value(entries_view(o)[12].1, item_at(items, 21))
            && entries_view(o)[13].0 == "bank_fees"@ && same_value(entries_view(o)[13].1, item_at(items, 24))
            && entries_view(o)[14].0 == "bank_router_id"@ && same_value(entries_view(o)[14].1, item_at(items, 25))
            && entries_view(o)[15].0 == "external_bank_mov_id"@ && same_value(entries_view(o)[15].1, item_at(items, 28))
            && entries_view(o)[16].0 == "external_bank_mov_status"@ && same_value(entries_view(o)[16].1, item_at(items, 29))
            && entries_view(o)[17].0 == "external_bank_mov_description"@ && same_value(entries_view(o)[17].1, item_at(items, 30))
            && entries_view(o)[18].0 == "external_bank_mov_acc_info"@ && same_value(entries_view(o)[18].1, item_at(items, 31))
    }

    /// Writes the record as an object of its named fields, in order;
    /// reserved positions are not written.
    pub fn into_object(self) -> (r: Wire)
        ensures
            self.written_as(r),
    {
        let MovementResp {
            id,
            currency,
            method,
            remark,
            mts_started,
            mts_updated,
            status,
            amount,
            fees,
            destination_address,
            memo,
            transaction_id,
            movement_note,
            bank_fees,
            bank_router_id,
            external_bank_mov_id,
            external_bank_mov_status,
            external_bank_mov_description,
            external_bank_mov_acc_info,
        } = self;
        let mut e: Vec<(String, Wire)> = Vec::new();
        e.push((String::from_str("id"), Wire::Int(id)));
        e.push((String::from_str("currency"), Wire::Str(currency)));
        e.push((String::from_str("method"), Wire::Str(method)));
        e.push((String::from_str("remark"), match remark {
            Some(x) => Wire::Str(x),
            None => Wire::Null,
        }));
        e.push((String::from_str("mts_started"), Wire::Int(mts_started)));
        e.push((String::from_str("mts_updated"), Wire::Int(mts_updated)));
        e.push((String::from_str("status"), Wire::Str(status)));
        e.push((String::from_str("amount"), Wire::Num(amount)));
        e.push((String::from_str("fees"), Wire::Num(fees)));
        e.push((String::from_str("destination_address"), match destination_address {
            Some(x) => Wire::Str(x),
            None => Wire::Null,
        }));
        e.push((String::from_str("memo"), match memo {
            Some(x) => Wire::Str(x),
            None => Wire::Null,
        }));
        e.push((String::from_str("transaction_id"), match transaction_id {
            Some(x) => Wire::Str(x),
            None => Wire::Null,
        }));
        e.push((String::from_str("movement_note"), match movement_note {
            Some(x) => Wire::Str(x),
            None => Wire::Null,
        }));
        e.push((String::from_str("bank_fees"), match bank_fees {
            Some(x) => Wire::Num(x),
            None => Wire::Null,
        }));
        e.push((String::from_str("bank_router_id"), match bank_router_id {
            Some(x) => Wire::Int(x),
            None => Wire::Null,
        }));
        e.push((String::from_str("external_bank_mov_id"), match external_bank_mov_id {
            Some(x) => Wire::Str(x),
            None => Wire::Null,
        }));
        e.push((String::from_str("external_bank_mov_status"), match external_bank_mov_status {
            Some(x) => Wire::Str(x),
            None => Wire::Null,
        }));
        e.push((String::from_str("external_bank_mov_description"), match external_bank_mov_description {
            Some(x) => Wire::Str(x),
            None => Wire::Null,
        }));
        e.push((String::from_str("external_bank_mov_acc_info"), match external_bank_mov_acc_info {
            Some(x) => x,
            None => Wire::Null,
        }));
        let r = Wire::Object(e);
        assert(entries_view(r).len() == 19);
        r
    }

}

/// A MovementResp decoded from a well-formed array and written back as an
/// object holds, under each field's name, the value of that field's position.
pub proof fn lemma_movement_resp_round_trip(v: MovementResp, items: Seq<Wire>, o: Wire)
    requires
        conforms(items, movement_resp_schema()),
        v.decoded_from(items),
        v.written_as(o),
    ensures
        MovementResp::round_trips(o, items),
{
    assert(fits(item_at(items, 0), movement_resp_schema()[0]));
    assert(fits(item_at(items, 1), movement_resp_schema()[1]));
    assert(fits(item_at(items, 2), movement_resp_schema()[2]));
    assert(fits(item_at(items, 4), movement_resp_schema()[4]));
    assert(fits(item_at(items, 5), movement_resp_schema()[5]));
    assert(fits(item_at(items, 6), movement_resp_schema()[6]));
    assert(fits(item_at(items, 9), movement_resp_schema()[9]));
    assert(fits(item_at(items, 12), movement_resp_schema()[12]));
    assert(fits(item_at(items, 13), movement_resp_schema()[13]));
    assert(fits(item_at(items, 16), movement_resp_schema()[16]));
    assert(fits(item_at(items, 17), movement_resp_schema()[17]));
    assert(fits(item_at(items, 20), movement_resp_schema()[20]));
    assert(fits(item_at(items, 21), movement_resp_schema()[21]));
    assert(fits(item_at(items, 24), movement_resp_schema()[24]));
    assert(fits(item_at(items, 25), movement_resp_schema()[25]));
    assert(fits(item_at(items, 28), movement_resp_schema()[28]));
    assert(fits(item_at(items, 29), movement_resp_schema()[29]));
    assert(fits(item_at(items, 30), movement_resp_schema()[30]));
    assert(fits(item_at(items, 31), movement_resp_schema()[31]));
}
impl Wallet {
    /// Whether `w` is a list of Wallet records.
    pub open spec fn list_ok(w: Wire) -> bool {
        w is Array && forall|i: int| 0 <= i < elems(w).len() ==> #[trigger] Self::wire_ok(elems(w)[i])
    }

    /// The error that decoding `w` as a list of Wallet records ends in: the
    /// error of the first element that does not decode.
    pub open spec fn list_rejects(e: ClientError, w: Wire) -> bool {
        if !(w is Array) {
            protocol_error(e, w, "Wallet list"@)
        } else {
            exists|i: int|
                0 <= i < elems(w).len() && !Self::wire_ok(#[trigger] elems(w)[i]) && Self::rejects(
                    e,
                    elems(w)[i],
                ) && forall|j: int| 0 <= j < i ==> Self::wire_ok(#[trigger] elems(w)[j])
        }
    }

    /// Decodes a list of records, each in its positional form.
    pub fn list_from_wire(w: Wire) -> (r: Result<Vec<Wallet>, ClientError>)
        ensures
            r is Ok <==> Self::list_ok(w),
            r matches Ok(v) ==> v@.len() == elems(w).len() && forall|i: int|
                0 <= i < v@.len() ==> #[trigger] v@[i].decoded_from(Wallet::positions(elems(w)[i])),
            r matches Err(e) ==> Self::list_rejects(e, w),
    {
        let ghost gw = w;
        let mut items = match w {
            Wire::Array(items) => items,
            _ => return Err(ClientError::Protocol { record: "Wallet list".to_owned(), payload: w }),
        };
        let ghost all = items@;
        assert(all == elems(gw));
        let mut out: Vec<Wallet> = Vec::new();
        let mut i: usize = 0;
        while i < items.len()
            invariant
                i <= items@.len() == all.len(),
                all == elems(gw),
                gw == w,
                out@.len() == i,
                forall|j: int| i <= j < all.len() ==> items@[j] == all[j],
                forall|j: int| 0 <= j < i ==> Self::wire_ok(#[trigger] all[j]),
                forall|j: int| 0 <= j < i ==> #[trigger] out@[j].decoded_from(Wallet::positions(all[j])),
            decreases all.len() - i,
        {
            let one = take_item(&mut items, i);
            assert(one == all[i as int]);
            match Wallet::from_wire(one) {
                Ok(v) => out.push(v),
                Err(e) => {
                    assert(!Self::wire_ok(elems(gw)[i as int]));
                    assert(Self::rejects(e, elems(gw)[i as int]));
                    return Err(e);
                },
            }
            i = i + 1;
        }
        Ok(out)
    }
}

/// A request for a deposit invoice.
#[derive(Clone, Debug)]
pub struct InvoiceReq {
    pub wallet: String,
    pub currency: String,
    pub amount: String,
}

impl InvoiceReq {
    /// The fields that the request body carries, in order.
    pub open spec fn entries(self) -> Seq<(Seq<char>, FieldValue)> {
        let es = Seq::<(Seq<char>, FieldValue)>::empty();
        let es = es.push(("wallet"@, FieldValue::Text(self.wallet@)));
        let es = es.push(("currency"@, FieldValue::Text(self.currency@)));
        let es = es.push(("amount"@, FieldValue::Text(self.amount@)));
        es
    }

    /// The request body: a JSON object of the documented, present fields.
    pub fn to_body(&self) -> (r: String)
        ensures
            r@ == object_text(self.entries()),
    {
        let mut w = ObjectWriter::new();
        w.add("wallet", Field::Text(self.wallet.clone()));
        w.add("currency", Field::Text(self.currency.clone()));
        w.add("amount", Field::Text(self.amount.clone()));
        w.finish()
    }
}

/// A request for a deposit address.
#[derive(Clone, Debug)]
pub struct LnAddressReq {
    pub method: String,
    pub wallet: String,
}

impl LnAddressReq {
    /// The fields that the request body carries, in order.
    pub open spec fn entries(self) -> Seq<(Seq<char>, FieldValue)> {
        let es = Seq::<(Seq<char>, FieldValue)>::empty();
        let es = es.push(("method"@, FieldValue::Text(self.method@)));
        let es = es.push(("wallet"@, FieldValue::Text(self.wallet@)));
        es
    }

    /// The request body: a JSON object of the documented, present fields.
    pub fn to_body(&self) -> (r: String)
        ensures
            r@ == object_text(self.entries()),
    {
        let mut w = ObjectWriter::new();
        w.add("method", Field::Text(self.method.clone()));
        w.add("wallet", Field::Text(self.wallet.clone()));
        w.finish()
    }
}

/// A request to move funds between wallets.
#[derive(Clone, Debug)]
pub struct TransferReq {
    pub from: String,
    pub to: String,
    pub currency: String,
    pub currency_to: Option<String>,
    pub amount: String,
}

impl TransferReq {
    /// The fields that the request body carries, in order.
    pub open spec fn entries(self) -> Seq<(Seq<char>, FieldValue)> {
        let es = Seq::<(Seq<char>, FieldValue)>::empty();
        let es = es.push(("from"@, FieldValue::Text(self.from@)));
        let es = es.push(("to"@, FieldValue::Text(self.to@)));
        let es = es.push(("currency"@, FieldValue::Text(self.currency@)));
        let es = es.push(("currency_to"@, match self.currency_to { Some(v) => FieldValue::Text(v@), None => FieldValue::Null }));
        let es = es.push(("amount"@, FieldValue::Text(self.amount@)));
        es
    }

    /// The request body: a JSON object of the documented, present fields.
    pub fn to_body(&self) -> (r: String)
        ensures
            r@ == object_text(self.entries()),
    {
        let mut w = ObjectWriter::new();
        w.add("from", Field::Text(self.from.clone()));
        w.add("to", Field::Text(self.to.clone()));
        w.add("currency", Field::Text(self.currency.clone()));
        match &self.currency_to {
            Some(v) => w.add("currency_to", Field::Text(v.clone())),
            None => w.add("currency_to", Field::Null),
        }
        w.add("amount", Field::Text(self.amount.clone()));
        w.finish()
    }
}

/// A request to withdraw funds; absent fields are left out of the body.
#[derive(Clone, Debug)]
pub struct WithdrawReq {
    pub wallet: String,
    pub method: String,
    pub amount: Option<String>,
    pub address: Option<String>,
    pub invoice: Option<String>,
    pub payment_id: Option<String>,
    pub fee_deduct: Option<i32>,
    pub travel_rule_tos: Option<bool>,
}

impl WithdrawReq {
    /// The fields that the request body carries, in order.
    pub open spec fn entries(self) -> Seq<(Seq<char>, FieldValue)> {
        let es = Seq::<(Seq<char>, FieldValue)>::empty();
        let es = es.push(("wallet"@, FieldValue::Text(self.wallet@)));
        let es = es.push(("method"@, FieldValue::Text(self.method@)));
        let es = match self.amount { Some(v) => es.push(("amount"@, FieldValue::Text(v@))), None => es };
        let es = match self.address { Some(v) => es.push(("address"@, FieldValue::Text(v@))), None => es };
        let es = match self.invoice { Some(v) => es.push(("invoice"@, FieldValue::Text(v@))), None => es };
        let es = match self.payment_id { Some(v) => es.push(("payment_id"@, FieldValue::Text(v@))), None => es };
        let es = match self.fee_deduct { Some(v) => es.push(("fee_deduct"@, FieldValue::Int(v as int))), None => es };
        let es = match self.travel_rule_tos { Some(v) => es.push(("travel_rule_tos"@, FieldValue::Bool(v))), None => es };
        es
    }

    /// The request body: a JSON object of the documented, present fields.
    pub fn to_body(&self) -> (r: String)
        ensures
            r@ == object_text(self.entries()),
    {
        let mut w = ObjectWriter::new();
        w.add("wallet", Field::Text(self.wallet.clone()));
        w.add("method", Field::Text(self.method.clone()));
        if let Some(v) = &self.amount {
            w.add("amount", Field::Text(v.clone()));
        }
        if let Some(v) = &self.address {
            w.add("address", Field::Text(v.clone()));
        }
        if let Some(v) = &self.invoice {
            w.add("invoice", Field::Text(v.clone()));
        }
        if let Some(v) = &self.payment_id {
            w.add("payment_id", Field::Text(v.clone()));
        }
        if let Some(v) = &self.fee_deduct {
            w.add("fee_deduct", Field::Int(*v as i64));
        }
        if let Some(v) = &self.travel_rule_tos {
            w.add("travel_rule_tos", Field::Bool(*v));
        }
        w.finish()
    }
}

/// A request for one movement of the account.
#[derive(Clone, Debug)]
pub struct MovementReq {
    pub id: i64,
}

impl MovementReq {
    /// The fields that the request body carries, in order.
    pub open spec fn entries(self) -> Seq<(Seq<char>, FieldValue)> {
        let es = Seq::<(Seq<char>, FieldValue)>::empty();
        let es = es.push(("id"@, FieldValue::Int(self.id as int)));
        es
    }

    /// The request body: a JSON object of the documented, present fields.
    pub fn to_body(&self) -> (r: String)
        ensures
            r@ == object_text(self.entries()),
    {
        let mut w = ObjectWriter::new();
        w.add("id", Field::Int(self.id));
        w.finish()
    }
}
/// The account endpoints. Each method returns the signed call, ready for the
/// transport; the answer is decoded with the `from_wire` of the record named.
#[derive(Clone, Debug)]
pub struct Account {
    pub client: Client,
}

impl Account {
    pub fn new(api_key: Option<String>, secret_key: Option<String>) -> (r: Account)
        ensures
            r.client.api_key == api_key,
            r.client.secret_key == secret_key,
    {
        Account { client: Client::new(api_key, secret_key) }
    }

    /// Lists the wallets (`Wallet::list_from_wire`).
    pub fn get_wallets(&self, nonce: u64) -> (r: Result<SignedRequest, ClientError>)
        ensures
            r is Ok <==> self.client.has_credentials(),
            r matches Ok(s) ==> signed_as(s, self.client, OperationKind::Read, "wallets"@, nonce, "{}"@),
            r matches Err(e) ==> e is Configuration,
    {
        self.client.sign(OperationKind::Read, "wallets", nonce, "{}")
    }

    /// Margin information of the account (`MarginBase::from_wire`).
    pub fn margin_base(&self, nonce: u64) -> (r: Result<SignedRequest, ClientError>)
        ensures
            r is Ok <==> self.client.has_credentials(),
            r matches Ok(s) ==> signed_as(s, self.client, OperationKind::Read, "info/margin/base"@, nonce, "{}"@),
            r matches Err(e) ==> e is Configuration,
    {
        self.client.sign(OperationKind::Read, "info/margin/base", nonce, "{}")
    }

    /// Margin information of the trading pair `key` (`MarginSymbol::from_wire`).
    pub fn margin_symbol(&self, key: &str, nonce: u64) -> (r: Result<SignedRequest, ClientError>)
        ensures
            r is Ok <==> self.client.has_credentials(),
            r matches Ok(s) ==> signed_as(s, self.client, OperationKind::Read, "info/margin/t"@ + key@, nonce, "{}"@),
            r matches Err(e) ==> e is Configuration,
    {
        self.client.sign(OperationKind::Read, String::from_str("info/margin/t").concat(key).as_str(), nonce, "{}")
    }

    /// Funding information of the currency `key` (`FundingInfo::from_wire`).
    pub fn funding_info(&self, key: &str, nonce: u64) -> (r: Result<SignedRequest, ClientError>)
        ensures
            r is Ok <==> self.client.has_credentials(),
            r matches Ok(s) ==> signed_as(s, self.client, OperationKind::Read, "info/funding/f"@ + key@, nonce, "{}"@),
            r matches Err(e) ==> e is Configuration,
    {
        self.client.sign(OperationKind::Read, String::from_str("info/funding/f").concat(key).as_str(), nonce, "{}")
    }

    /// Creates the deposit address that invoices need; the answer is a
    /// notification envelope.
    pub fn generate_invoice_address(&self, nonce: u64) -> (r: Result<SignedRequest, ClientError>)
        ensures
            r is Ok <==> self.client.has_credentials(),
            r matches Ok(s) ==> signed_as(s, self.client, OperationKind::Write, "deposit/address"@, nonce,
                object_text(seq![("method"@, FieldValue::Text("LNX"@)), ("wallet"@, FieldValue::Text("exchange"@))])),
            r matches Err(e) ==> e is Configuration,
    {
        let req = LnAddressReq { method: String::from_str("LNX"), wallet: String::from_str("exchange") };
        assert(req.entries() =~= seq![("method"@, FieldValue::Text("LNX"@)), ("wallet"@, FieldValue::Text("exchange"@))]);
        self.client.sign(OperationKind::Write, "deposit/address", nonce, req.to_body().as_str())
    }

    /// Generates a deposit invoice (`InvoiceInfo::from_wire`).
    pub fn generate_invoice(&self, req: &InvoiceReq, nonce: u64) -> (r: Result<SignedRequest, ClientError>)
        ensures
            r is Ok <==> self.client.has_credentials(),
            r matches Ok(s) ==> signed_as(s, self.client, OperationKind::Write, "deposit/invoice"@, nonce, object_text(req.entries())),
            r matches Err(e) ==> e is Configuration,
    {
        self.client.sign(OperationKind::Write, "deposit/invoice", nonce, req.to_body().as_str())
    }

    /// Moves funds between wallets (`TransferResp::from_wire`).
    pub fn transfer(&self, req: &TransferReq, nonce: u64) -> (r: Result<SignedRequest, ClientError>)
        ensures
            r is Ok <==> self.client.has_credentials(),
            r matches Ok(s) ==> signed_as(s, self.client, OperationKind::Write, "transfer"@, nonce, object_text(req.entries())),
            r matches Err(e) ==> e is Configuration,
    {
        self.client.sign(OperationKind::Write, "transfer", nonce, req.to_body().as_str())
    }

    /// Withdraws funds (`WithdrawResp::from_wire`).
    pub fn withdraw(&self, req: &WithdrawReq, nonce: u64) -> (r: Result<SignedRequest, ClientError>)
        ensures
            r is Ok <==> self.client.has_credentials(),
            r matches Ok(s) ==> signed_as(s, self.client, OperationKind::Write, "withdraw"@, nonce, object_text(req.entries())),
            r matches Err(e) ==> e is Configuration,
    {
        self.client.sign(OperationKind::Write, "withdraw", nonce, req.to_body().as_str())
    }

    /// Looks up one movement (`MovementResp::from_wire`).
    pub fn movement_info(&self, req: &MovementReq, nonce: u64) -> (r: Result<SignedRequest, ClientError>)
        ensures
            r is Ok <==> self.client.has_credentials(),
            r matches Ok(s) ==> signed_as(s, self.client, OperationKind::Read, "movements/info"@, nonce, object_text(req.entries())),
            r matches Err(e) ==> e is Configuration,
    {
        self.client.sign(OperationKind::Read, "movements/info", nonce, req.to_body().as_str())
    }
}

} // verus!
