//! Records of the order endpoints.
use vstd::prelude::*;
use crate::codec::{
    protocol_error,    array_conforms, conforms, dec_of, elems, entries_view, expect_array, fits, int32_of, int_of,
    item, item_at, opt_any_of, opt_any_wire, opt_dec_of, opt_dec_wire, opt_int32_of, opt_int32_wire,
    opt_int_of, opt_int_wire, opt_str_of, opt_str_wire, opt_view, read_any, read_dec, read_int,
    read_int32, read_opt_dec, read_opt_int, read_opt_int32, read_opt_str, read_str, rejected,
    same_text, same_value, str_of, succeeded, take_item, Slot,
};
use crate::body::{object_text, Field, FieldValue, ObjectWriter};
use crate::client::{signed_as, Client};
use crate::error::ClientError;
use crate::signer::{OperationKind, SignedRequest};
use vstd::string::StringExecFns;
use crate::wire::{Decimal, Wire};

verus! {

/// An order of the account.
#[derive(Debug)]
pub struct Order {
    pub id: i64,
    pub group_id: Option<i32>,
    pub client_id: i64,
    pub symbol: String,
    pub creation_timestamp: i64,
    pub update_timestamp: i64,
    pub amount: Decimal,
    pub amount_original: Decimal,
    pub order_type: String,
    pub previous_order_type: Option<String>,
    pub flags: Option<i32>,
    pub order_status: Option<String>,
    pub price: Decimal,
    pub price_avg: Decimal,
    pub price_trailing: Option<Decimal>,
    pub price_aux_limit: Option<Decimal>,
    pub notify: i32,
    pub hidden: i32,
    pub placed_id: Option<i32>,
}

/// The positions of a Order, in order.
pub open spec fn order_schema() -> Seq<Slot> {
    seq![Slot::Int, Slot::OptInt32, Slot::Int, Slot::Str, Slot::Int, Slot::Int, Slot::Dec, Slot::Dec, Slot::Str, Slot::OptStr, Slot::Skip, Slot::Skip, Slot::OptInt32, Slot::OptStr, Slot::Skip, Slot::Skip, Slot::Dec, Slot::Dec, Slot::OptDec, Slot::OptDec, Slot::Skip, Slot::Skip, Slot::Skip, Slot::Int32, Slot::Int32, Slot::OptInt32]
}

fn order_slots() -> (r: Vec<Slot>)
    ensures
        r@ == order_schema(),
{
    vec![Slot::Int, Slot::OptInt32, Slot::Int, Slot::Str, Slot::Int, Slot::Int, Slot::Dec, Slot::Dec, Slot::Str, Slot::OptStr, Slot::Skip, Slot::Skip, Slot::OptInt32, Slot::OptStr, Slot::Skip, Slot::Skip, Slot::Dec, Slot::Dec, Slot::OptDec, Slot::OptDec, Slot::Skip, Slot::Skip, Slot::Skip, Slot::Int32, Slot::Int32, Slot::OptInt32]
}

impl Order {
    /// Whether `w` decodes as a Order.
    pub open spec fn wire_ok(w: Wire) -> bool {
        array_conforms(w, order_schema())
    }

    /// Whether each named field holds what its position in `items` holds.
    pub open spec fn decoded_from(self, items: Seq<Wire>) -> bool {
        self.id == int_of(item_at(items, 0))
            && self.group_id == opt_int32_of(item_at(items, 1))
            && self.client_id == int_of(item_at(items, 2))
            && self.symbol@ == str_of(item_at(items, 3))
            && self.creation_timestamp == int_of(item_at(items, 4))
            && self.update_timestamp == int_of(item_at(items, 5))
            && self.amount == dec_of(item_at(items, 6))
            && self.amount_original == dec_of(item_at(items, 7))
            && self.order_type@ == str_of(item_at(items, 8))
            && opt_view(self.previous_order_type) == opt_str_of(item_at(items, 9))
            && self.flags == opt_int32_of(item_at(items, 12))
            && opt_view(self.order_status) == opt_str_of(item_at(items, 13))
            && self.price == dec_of(item_at(items, 16))
            && self.price_avg == dec_of(item_at(items, 17))
            && self.price_trailing == opt_dec_of(item_at(items, 18))
            && self.price_aux_limit == opt_dec_of(item_at(items, 19))
            && self.notify == int32_of(item_at(items, 23))
            && self.hidden == int32_of(item_at(items, 24))
            && self.placed_id == opt_int32_of(item_at(items, 25))
    }

    /// The error that decoding `w` as a Order ends in.
    pub open spec fn rejects(e: ClientError, w: Wire) -> bool {
        protocol_error(e, w, "Order"@)
    }

    /// Decodes a Order from its positional form; elements past the last
    /// declared position are ignored.
    pub fn from_wire(w: Wire) -> (r: Result<Order, ClientError>)
        ensures
            r is Ok <==> Self::wire_ok(w),
            r matches Ok(v) ==> v.decoded_from(elems(w)),
            r matches Err(e) ==> Self::rejects(e, w),
    {
        let mut items = match expect_array(w, &order_slots(), "Order") {
            Ok(items) => items,
            Err(e) => return Err(e),
        };
        let null = Wire::Null;
        let id = read_int(item(&items, 0, &null));
        let group_id = read_opt_int32(item(&items, 1, &null));
        let client_id = read_int(item(&items, 2, &null));
        let symbol = read_str(item(&items, 3, &null));
        let creation_timestamp = read_int(item(&items, 4, &null));
        let update_timestamp = read_int(item(&items, 5, &null));
        let amount = read_dec(item(&items, 6, &null));
        let amount_original = read_dec(item(&items, 7, &null));
        let order_type = read_str(item(&items, 8, &null));
        let previous_order_type = read_opt_str(item(&items, 9, &null));
        let flags = read_opt_int32(item(&items, 12, &null));
        let order_status = read_opt_str(item(&items, 13, &null));
        let price = read_dec(item(&items, 16, &null));
        let price_avg = read_dec(item(&items, 17, &null));
        let price_trailing = read_opt_dec(item(&items, 18, &null));
        let price_aux_limit = read_opt_dec(item(&items, 19, &null));
        let notify = read_int32(item(&items, 23, &null));
        let hidden = read_int32(item(&items, 24, &null));
        let placed_id = read_opt_int32(item(&items, 25, &null));
        Ok(Order {
            id,
            group_id,
            client_id,
            symbol,
            creation_timestamp,
            update_timestamp,
            amount,
            amount_original,
            order_type,
            previous_order_type,
            flags,
            order_status,
            price,
            price_avg,
            price_trailing,
            price_aux_limit,
            notify,
            hidden,
            placed_id,
        })
    }
    /// Whether `w` is this record written as an object of its named fields.
    pub open spec fn written_as(self, w: Wire) -> bool {
        w is Object
            && entries_view(w).len() == 19
            && entries_view(w)[0] == ("id"@, Wire::Int(self.id))
            && entries_view(w)[1] == ("group_id"@, opt_int32_wire(self.group_id))
            && entries_view(w)[2] == ("client_id"@, Wire::Int(self.client_id))
            && entries_view(w)[3] == ("symbol"@, Wire::Str(self.symbol))
            && entries_view(w)[4] == ("creation_timestamp"@, Wire::Int(self.creation_timestamp))
            && entries_view(w)[5] == ("update_timestamp"@, Wire::Int(self.update_timestamp))
            && entries_view(w)[6] == ("amount"@, Wire::Num(self.amount))
            && entries_view(w)[7] == ("amount_original"@, Wire::Num(self.amount_original))
            && entries_view(w)[8] == ("order_type"@, Wire::Str(self.order_type))
            && entries_view(w)[9] == ("previous_order_type"@, opt_str_wire(self.previous_order_type))
            && entries_view(w)[10] == ("flags"@, opt_int32_wire(self.flags))
            && entries_view(w)[11] == ("order_status"@, opt_str_wire(self.order_status))
            && entries_view(w)[12] == ("price"@, Wire::Num(self.price))
            && entries_view(w)[13] == ("price_avg"@, Wire::Num(self.price_avg))
            && entries_view(w)[14] == ("price_trailing"@, opt_dec_wire(self.price_trailing))
            && entries_view(w)[15] == ("price_aux_limit"@, opt_dec_wire(self.price_aux_limit))
            && entries_view(w)[16] == ("notify"@, Wire::Int(self.notify as i64))
            && entries_view(w)[17] == ("hidden"@, Wire::Int(self.hidden as i64))
            && entries_view(w)[18] == ("placed_id"@, opt_int32_wire(self.placed_id))
    }

    /// Whether the object `o` holds, under each field's name, what the
    /// field's position in `items` holds.
    pub open spec fn round_trips(o: Wire, items: Seq<Wire>) -> bool {
        entries_view(o)[0].0 == "id"@ && same_value(entries_view(o)[0].1, item_at(items, 0))
            && entries_view(o)[1].0 == "group_id"@ && same_value(entries_view(o)[1].1, item_at(items, 1))
            && entries_view(o)[2].0 == "client_id"@ && same_value(entries_view(o)[2].1, item_at(items, 2))
            && entries_view(o)[3].0 == "symbol"@ && same_value(entries_view(o)[3].1, item_at(items, 3))
            && entries_view(o)[4].0 == "creation_timestamp"@ && same_value(entries_view(o)[4].1, item_at(items, 4))
            && entries_view(o)[5].0 == "update_timestamp"@ && same_value(entries_view(o)[5].1, item_at(items, 5))
            && entries_view(o)[6].0 == "amount"@ && same_value(entries_view(o)[6].1, item_at(items, 6))
            && entries_view(o)[7].0 == "amount_original"@ && same_value(entries_view(o)[7].1, item_at(items, 7))
            && entries_view(o)[8].0 == "order_type"@ && same_value(entries_view(o)[8].1, item_at(items, 8))
            && entries_view(o)[9].0 == "previous_order_type"@ && same_value(entries_view(o)[9].1, item_at(items, 9))
            && entries_view(o)[10].0 == "flags"@ && same_value(entries_view(o)[10].1, item_at(items, 12))
            && entries_view(o)[11].0 == "order_status"@ && same_value(entries_view(o)[11].1, item_at(items, 13))
            && entries_view(o)[12].0 == "price"@ && same_value(entries_view(o)[12].1, item_at(items, 16))
            && entries_view(o)[13].0 == "price_avg"@ && same_value(entries_view(o)[13].1, item_at(items, 17))
            && entries_view(o)[14].0 == "price_trailing"@ && same_value(entries_view(o)[14].1, item_at(items, 18))
            && entries_view(o)[15].0 == "price_aux_limit"@ && same_value(entries_view(o)[15].1, item_at(items, 19))
            && entries_view(o)[16].0 == "notify"@ && same_value(entries_view(o)[16].1, item_at(items, 23))
            && entries_view(o)[17].0 == "hidden"@ && same_value(entries_view(o)[17].1, item_at(items, 24))
            && entries_view(o)[18].0 == "placed_id"@ && same_value(entries_view(o)[18].1, item_at(items, 25))
    }

    /// Writes the record as an object of its named fields, in order;
    /// reserved positions are not written.
    pub fn into_object(self) -> (r: Wire)
        ensures
            self.written_as(r),
    {
        let Order {
            id,
            group_id,
            client_id,
            symbol,
            creation_timestamp,
            update_timestamp,
            amount,
            amount_original,
            order_type,
            previous_order_type,
            flags,
            order_status,
            price,
            price_avg,
            price_trailing,
            price_aux_limit,
            notify,
            hidden,
            placed_id,
        } = self;
        let mut e: Vec<(String, Wire)> = Vec::new();
        e.push((String::from_str("id"), Wire::Int(id)));
        e.push((String::from_str("group_id"), match group_id {
            Some(x) => Wire::Int(x as i64),
            None => Wire::Null,
        }));
        e.push((String::from_str("client_id"), Wire::Int(client_id)));
        e.push((String::from_str("symbol"), Wire::Str(symbol)));
        e.push((String::from_str("creation_timestamp"), Wire::Int(creation_timestamp)));
        e.push((String::from_str("update_timestamp"), Wire::Int(update_timestamp)));
        e.push((String::from_str("amount"), Wire::Num(amount)));
        e.push((String::from_str("amount_original"), Wire::Num(amount_original)));
        e.push((String::from_str("order_type"), Wire::Str(order_type)));
        e.push((String::from_str("previous_order_type"), match previous_order_type {
            Some(x) => Wire::Str(x),
            None => Wire::Null,
        }));
        e.push((String::from_str("flags"), match flags {
            Some(x) => Wire::Int(x as i64),
            None => Wire::Null,
        }));
        e.push((String::from_str("order_status"), match order_status {
            Some(x) => Wire::Str(x),
            None => Wire::Null,
        }));
        e.push((String::from_str("price"), Wire::Num(price)));
        e.push((String::from_str("price_avg"), Wire::Num(price_avg)));
        e.push((String::from_str("price_trailing"), match price_trailing {
            Some(x) => Wire::Num(x),
            None => Wire::Null,
        }));
        e.push((String::from_str("price_aux_limit"), match price_aux_limit {
            Some(x) => Wire::Num(x),
            None => Wire::Null,
        }));
        e.push((String::from_str("notify"), Wire::Int(notify as i64)));
        e.push((String::from_str("hidden"), Wire::Int(hidden as i64)));
        e.push((String::from_str("placed_id"), match placed_id {
            Some(x) => Wire::Int(x as i64),
            None => Wire::Null,
        }));
        let r = Wire::Object(e);
        assert(entries_view(r).len() == 19);
        r
    }

}

/// A Order decoded from a well-formed array and written back as an
/// object holds, under each field's name, the value of that field's position.
pub proof fn lemma_order_round_trip(v: Order, items: Seq<Wire>, o: Wire)
    requires
        conforms(items, order_schema()),
        v.decoded_from(items),
        v.written_as(o),
    ensures
        Order::round_trips(o, items),
{
    assert(fits(item_at(items, 0), order_schema()[0]));
    assert(fits(item_at(items, 1), order_schema()[1]));
    assert(fits(item_at(items, 2), order_schema()[2]));
    assert(fits(item_at(items, 3), order_schema()[3]));
    assert(fits(item_at(items, 4), order_schema()[4]));
    assert(fits(item_at(items, 5), order_schema()[5]));
    assert(fits(item_at(items, 6), order_schema()[6]));
    assert(fits(item_at(items, 7), order_schema()[7]));
    assert(fits(item_at(items, 8), order_schema()[8]));
    assert(fits(item_at(items, 9), order_schema()[9]));
    assert(fits(item_at(items, 12), order_schema()[12]));
    assert(fits(item_at(items, 13), order_schema()[13]));
    assert(fits(item_at(items, 16), order_schema()[16]));
    assert(fits(item_at(items, 17), order_schema()[17]));
    assert(fits(item_at(items, 18), order_schema()[18]));
    assert(fits(item_at(items, 19), order_schema()[19]));
    assert(fits(item_at(items, 23), order_schema()[23]));
    assert(fits(item_at(items, 24), order_schema()[24]));
    assert(fits(item_at(items, 25), order_schema()[25]));
}

/// An order as the exchange accepted it.
#[derive(Debug)]
pub struct SubmitOrderRespData {
    pub id: i64,
    pub gid: Option<i64>,
    pub cid: Option<i64>,
    pub symbol: Option<String>,
    pub mts_create: i64,
    pub mts_update: i64,
    pub amount: Decimal,
    pub amount_orig: Decimal,
    pub order_type: String,
    pub type_prev: Option<String>,
    pub mts_tif: Option<i64>,
    pub flags: i64,
    pub status: String,
    pub price: Decimal,
    pub price_avg: Decimal,
    pub price_trailing: Decimal,
    pub price_aux_limit: Decimal,
    pub notify: i64,
    pub hidden: i64,
    pub placed_id: Option<String>,
    pub routing: Option<String>,
    pub meta: Option<Wire>,
}

/// The positions of a SubmitOrderRespData, in order.
pub open spec fn submit_order_resp_data_schema() -> Seq<Slot> {
    seq![Slot::Int, Slot::OptInt, Slot::OptInt, Slot::OptStr, Slot::Int, Slot::Int, Slot::Dec, Slot::Dec, Slot::Str, Slot::OptStr, Slot::OptInt, Slot::Skip, Slot::Int, Slot::Str, Slot::Skip, Slot::Skip, Slot::Dec, Slot::Dec, Slot::Dec, Slot::Dec, Slot::Skip, Slot::Skip, Slot::Skip, Slot::Int, Slot::Int, Slot::OptStr, Slot::Skip, Slot::Skip, Slot::OptStr, Slot::Skip, Slot::Skip, Slot::Any]
}

fn submit_order_resp_data_slots() -> (r: Vec<Slot>)
    ensures
        r@ == submit_order_resp_data_schema(),
{
    vec![Slot::Int, Slot::OptInt, Slot::OptInt, Slot::OptStr, Slot::Int, Slot::Int, Slot::Dec, Slot::Dec, Slot::Str, Slot::OptStr, Slot::OptInt, Slot::Skip, Slot::Int, Slot::Str, Slot::Skip, Slot::Skip, Slot::Dec, Slot::Dec, Slot::Dec, Slot::Dec, Slot::Skip, Slot::Skip, Slot::Skip, Slot::Int, Slot::Int, Slot::OptStr, Slot::Skip, Slot::Skip, Slot::OptStr, Slot::Skip, Slot::Skip, Slot::Any]
}

impl SubmitOrderRespData {
    /// Whether `w` decodes as a SubmitOrderRespData.
    pub open spec fn wire_ok(w: Wire) -> bool {
        array_conforms(w, submit_order_resp_data_schema())
    }

    /// Whether each named field holds what its position in `items` holds.
    pub open spec fn decoded_from(self, items: Seq<Wire>) -> bool {
        self.id == int_of(item_at(items, 0))
            && self.gid == opt_int_of(item_at(items, 1))
            && self.cid == opt_int_of(item_at(items, 2))
            && opt_view(self.symbol) == opt_str_of(item_at(items, 3))
            && self.mts_create == int_of(item_at(items, 4))
            && self.mts_update == int_of(item_at(items, 5))
            && self.amount == dec_of(item_at(items, 6))
            && self.amount_orig == dec_of(item_at(items, 7))
            && self.order_type@ == str_of(item_at(items, 8))
            && opt_view(self.type_prev) == opt_str_of(item_at(items, 9))
            && self.mts_tif == opt_int_of(item_at(items, 10))
            && self.flags == int_of(item_at(items, 12))
            && self.status@ == str_of(item_at(items, 13))
            && self.price == dec_of(item_at(items, 16))
            && self.price_avg == dec_of(item_at(items, 17))
            && self.price_trailing == dec_of(item_at(items, 18))
            && self.price_aux_limit == dec_of(item_at(items, 19))
            && self.notify == int_of(item_at(items, 23))
            && self.hidden == int_of(item_at(items, 24))
            && opt_view(self.placed_id) == opt_str_of(item_at(items, 25))
            && opt_view(self.routing) == opt_str_of(item_at(items, 28))
            && self.meta == opt_any_of(item_at(items, 31))
    }

    /// The error that decoding `w` as a SubmitOrderRespData ends in.
    pub open spec fn rejects(e: ClientError, w: Wire) -> bool {
        protocol_error(e, w, "SubmitOrderRespData"@)
    }

    /// Decodes a SubmitOrderRespData from its positional form; elements past the last
    /// declared position are ignored.
    pub fn from_wire(w: Wire) -> (r: Result<SubmitOrderRespData, ClientError>)
        ensures
            r is Ok <==> Self::wire_ok(w),
            r matches Ok(v) ==> v.decoded_from(elems(w)),
            r matches Err(e) ==> Self::rejects(e, w),
    {
        let mut items = match expect_array(w, &submit_order_resp_data_slots(), "SubmitOrderRespData") {
            Ok(items) => items,
            Err(e) => return Err(e),
        };
        let null = Wire::Null;
        let id = read_int(item(&items, 0, &null));
        let gid = read_opt_int(item(&items, 1, &null));
        let cid = read_opt_int(item(&items, 2, &null));
        let symbol = read_opt_str(item(&items, 3, &null));
        let mts_create = read_int(item(&items, 4, &null));
        let mts_update = read_int(item(&items, 5, &null));
        let amount = read_dec(item(&items, 6, &null));
        let amount_orig = read_dec(item(&items, 7, &null));
        let order_type = read_str(item(&items, 8, &null));
        let type_prev = read_opt_str(item(&items, 9, &null));
        let mts_tif = read_opt_int(item(&items, 10, &null));
        let flags = read_int(item(&items, 12, &null));
        let status = read_str(item(&items, 13, &null));
        let price = read_dec(item(&items, 16, &null));
        let price_avg = read_dec(item(&items, 17, &null));
        let price_trailing = read_dec(item(&items, 18, &null));
        let price_aux_limit = read_dec(item(&items, 19, &null));
        let notify = read_int(item(&items, 23, &null));
        let hidden = read_int(item(&items, 24, &null));
        let placed_id = read_opt_str(item(&items, 25, &null));
        let routing = read_opt_str(item(&items, 28, &null));
        let meta = read_any(take_item(&mut items, 31));
        Ok(SubmitOrderRespData {
            id,
            gid,
            cid,
            symbol,
            mts_create,
            mts_update,
            amount,
            amount_orig,
            order_type,
            type_prev,
            mts_tif,
            flags,
            status,
            price,
            price_avg,
            price_trailing,
            price_aux_limit,
            notify,
            hidden,
            placed_id,
            routing,
            meta,
        })
    }
    /// Whether `w` is this record written as an object of its named fields.
    pub open spec fn written_as(self, w: Wire) -> bool {
        w is Object
            && entries_view(w).len() == 22
            && entries_view(w)[0] == ("id"@, Wire::Int(self.id))
            && entries_view(w)[1] == ("gid"@, opt_int_wire(self.gid))
            && entries_view(w)[2] == ("cid"@, opt_int_wire(self.cid))
            && entries_view(w)[3] == ("symbol"@, opt_str_wire(self.symbol))
            && entries_view(w)[4] == ("mts_create"@, Wire::Int(self.mts_create))
            && entries_view(w)[5] == ("mts_update"@, Wire::Int(self.mts_update))
            && entries_view(w)[6] == ("amount"@, Wire::Num(self.amount))
            && entries_view(w)[7] == ("amount_orig"@, Wire::Num(self.amount_orig))
            && entries_view(w)[8] == ("order_type"@, Wire::Str(self.order_type))
            && entries_view(w)[9] == ("type_prev"@, opt_str_wire(self.type_prev))
            && entries_view(w)[10] == ("mts_tif"@, opt_int_wire(self.mts_tif))
            && entries_view(w)[11] == ("flags"@, Wire::Int(self.flags))
            && entries_view(w)[12] == ("status"@, Wire::Str(self.status))
            && entries_view(w)[13] == ("price"@, Wire::Num(self.price))
            && entries_view(w)[14] == ("price_avg"@, Wire::Num(self.price_avg))
            && entries_view(w)[15] == ("price_trailing"@, Wire::Num(self.price_trailing))
            && entries_view(w)[16] == ("price_aux_limit"@, Wire::Num(self.price_aux_limit))
            && entries_view(w)[17] == ("notify"@, Wire::Int(self.notify))
            && entries_view(w)[18] == ("hidden"@, Wire::Int(self.hidden))
            && entries_view(w)[19] == ("placed_id"@, opt_str_wire(self.placed_id))
            && entries_view(w)[20] == ("routing"@, opt_str_wire(self.routing))
            && entries_view(w)[21] == ("meta"@, opt_any_wire(self.meta))
    }

    /// Whether the object `o` holds, under each field's name, what the
    /// field's position in `items` holds.
    pub open spec fn round_trips(o: Wire, items: Seq<Wire>) -> bool {
        entries_view(o)[0].0 == "id"@ && same_value(entries_view(o)[0].1, item_at(items, 0))
            && entries_view(o)[1].0 == "gid"@ && same_value(entries_view(o)[1].1, item_at(items, 1))
            && entries_view(o)[2].0 == "cid"@ && same_value(entries_view(o)[2].1, item_at(items, 2))
            && entries_view(o)[3].0 == "symbol"@ && same_value(entries_view(o)[3].1, item_at(items, 3))
            && entries_view(o)[4].0 == "mts_create"@ && same_value(entries_view(o)[4].1, item_at(items, 4))
            && entries_view(o)[5].0 == "mts_update"@ && same_value(entries_view(o)[5].1, item_at(items, 5))
            && entries_view(o)[6].0 == "amount"@ && same_value(entries_view(o)[6].1, item_at(items, 6))
            && entries_view(o)[7].0 == "amount_orig"@ && same_value(entries_view(o)[7].1, item_at(items, 7))
            && entries_view(o)[8].0 == "order_type"@ && same_value(entries_view(o)[8].1, item_at(items, 8))
            && entries_view(o)[9].0 == "type_prev"@ && same_value(entries_view(o)[9].1, item_at(items, 9))
            && entries_view(o)[10].0 == "mts_tif"@ && same_value(entries_view(o)[10].1, item_at(items, 10))
            && entries_view(o)[11].0 == "flags"@ && same_value(entries_view(o)[11].1, item_at(items, 12))
            && entries_view(o)[12].0 == "status"@ && same_value(entries_view(o)[12].1, item_at(items, 13))
            && entries_view(o)[13].0 == "price"@ && same_value(entries_view(o)[13].1, item_at(items, 16))
            && entries_view(o)[14].0 == "price_avg"@ && same_value(entries_view(o)[14].1, item_at(items, 17))
            && entries_view(o)[15].0 == "price_trailing"@ && same_value(entries_view(o)[15].1, item_at(items, 18))
            && entries_view(o)[16].0 == "price_aux_limit"@ && same_value(entries_view(o)[16].1, item_at(items, 19))
            && entries_view(o)[17].0 == "notify"@ && same_value(entries_view(o)[17].1, item_at(items, 23))
            && entries_view(o)[18].0 == "hidden"@ && same_value(entries_view(o)[18].1, item_at(items, 24))
            && entries_view(o)[19].0 == "placed_id"@ && same_value(entries_view(o)[19].1, item_at(items, 25))
            && entries_view(o)[20].0 == "routing"@ && same_value(entries_view(o)[20].1, item_at(items, 28))
            && entries_view(o)[21].0 == "meta"@ && same_value(entries_view(o)[21].1, item_at(items, 31))
    }

    /// Writes the record as an object of its named fields, in order;
    /// reserved positions are not written.
    pub fn into_object(self) -> (r: Wire)
        ensures
            self.written_as(r),
    {
        let SubmitOrderRespData {
            id,
            gid,
            cid,
            symbol,
            mts_create,
            mts_update,
            amount,
            amount_orig,
            order_type,
            type_prev,
            mts_tif,
            flags,
            status,
            price,
            price_avg,
            price_trailing,
            price_aux_limit,
            notify,
            hidden,
            placed_id,
            routing,
            meta,
        } = self;
        let mut e: Vec<(String, Wire)> = Vec::new();
        e.push((String::from_str("id"), Wire::Int(id)));
        e.push((String::from_str("gid"), match gid {
            Some(x) => Wire::Int(x),
            None => Wire::Null,
        }));
        e.push((String::from_str("cid"), match cid {
            Some(x) => Wire::Int(x),
            None => Wire::Null,
        }));
        e.push((String::from_str("symbol"), match symbol {
            Some(x) => Wire::Str(x),
            None => Wire::Null,
        }));
        e.push((String::from_str("mts_create"), Wire::Int(mts_create)));
        e.push((String::from_str("mts_update"), Wire::Int(mts_update)));
        e.push((String::from_str("amount"), Wire::Num(amount)));
        e.push((String::from_str("amount_orig"), Wire::Num(amount_orig)));
        e.push((String::from_str("order_type"), Wire::Str(order_type)));
        e.push((String::from_str("type_prev"), match type_prev {
            Some(x) => Wire::Str(x),
            None => Wire::Null,
        }));
        e.push((String::from_str("mts_tif"), match mts_tif {
            Some(x) => Wire::Int(x),
            None => Wire::Null,
        }));
        e.push((String::from_str("flags"), Wire::Int(flags)));
        e.push((String::from_str("status"), Wire::Str(status)));
        e.push((String::from_str("price"), Wire::Num(price)));
        e.push((String::from_str("price_avg"), Wire::Num(price_avg)));
        e.push((String::from_str("price_trailing"), Wire::Num(price_trailing)));
        e.push((String::from_str("price_aux_limit"), Wire::Num(price_aux_limit)));
        e.push((String::from_str("notify"), Wire::Int(notify)));
        e.push((String::from_str("hidden"), Wire::Int(hidden)));
        e.push((String::from_str("placed_id"), match placed_id {
            Some(x) => Wire::Str(x),
            None => Wire::Null,
        }));
        e.push((String::from_str("routing"), match routing {
            Some(x) => Wire::Str(x),
            None => Wire::Null,
        }));
        e.push((String::from_str("meta"), match meta {
            Some(x) => x,
            None => Wire::Null,
        }));
        let r = Wire::Object(e);
        assert(entries_view(r).len() == 22);
        r
    }

}

/// A SubmitOrderRespData decoded from a well-formed array and written back as an
/// object holds, under each field's name, the value of that field's position.
pub proof fn lemma_submit_order_resp_data_round_trip(v: SubmitOrderRespData, items: Seq<Wire>, o: Wire)
    requires
        conforms(items, submit_order_resp_data_schema()),
        v.decoded_from(items),
        v.written_as(o),
    ensures
        SubmitOrderRespData::round_trips(o, items),
{
    assert(fits(item_at(items, 0), submit_order_resp_data_schema()[0]));
    assert(fits(item_at(items, 1), submit_order_resp_data_schema()[1]));
    assert(fits(item_at(items, 2), submit_order_resp_data_schema()[2]));
    assert(fits(item_at(items, 3), submit_order_resp_data_schema()[3]));
    assert(fits(item_at(items, 4), submit_order_resp_data_schema()[4]));
    assert(fits(item_at(items, 5), submit_order_resp_data_schema()[5]));
    assert(fits(item_at(items, 6), submit_order_resp_data_schema()[6]));
    assert(fits(item_at(items, 7), submit_order_resp_data_schema()[7]));
    assert(fits(item_at(items, 8), submit_order_resp_data_schema()[8]));
    assert(fits(item_at(items, 9), submit_order_resp_data_schema()[9]));
    assert(fits(item_at(items, 10), submit_order_resp_data_schema()[10]));
    assert(fits(item_at(items, 12), submit_order_resp_data_schema()[12]));
    assert(fits(item_at(items, 13), submit_order_resp_data_schema()[13]));
    assert(fits(item_at(items, 16), submit_order_resp_data_schema()[16]));
    assert(fits(item_at(items, 17), submit_order_resp_data_schema()[17]));
    assert(fits(item_at(items, 18), submit_order_resp_data_schema()[18]));
    assert(fits(item_at(items, 19), submit_order_resp_data_schema()[19]));
    assert(fits(item_at(items, 23), submit_order_resp_data_schema()[23]));
    assert(fits(item_at(items, 24), submit_order_resp_data_schema()[24]));
    assert(fits(item_at(items, 25), submit_order_resp_data_schema()[25]));
    assert(fits(item_at(items, 28), submit_order_resp_data_schema()[28]));
    assert(fits(item_at(items, 31), submit_order_resp_data_schema()[31]));
}

/// The list that carries the submitted order; only its first element is read.
#[derive(Debug)]
pub struct SubmitOrderRespDataWrap {
    pub data: SubmitOrderRespData,
}

impl SubmitOrderRespDataWrap {
    /// Whether `w` is a list whose first element decodes as an order.
    pub open spec fn wire_ok(w: Wire) -> bool {
        w is Array && elems(w).len() > 0 && SubmitOrderRespData::wire_ok(elems(w)[0])
    }

    pub open spec fn decoded_from(self, items: Seq<Wire>) -> bool {
        self.data.decoded_from(elems(item_at(items, 0)))
    }

    /// Whether `w` is this list written as an object with the order under
    /// `data`.
    pub open spec fn written_as(self, w: Wire) -> bool {
        w is Object && entries_view(w).len() == 1 && entries_view(w)[0].0 == "data"@
            && self.data.written_as(entries_view(w)[0].1)
    }

    pub open spec fn round_trips(o: Wire, items: Seq<Wire>) -> bool {
        entries_view(o)[0].0 == "data"@ && SubmitOrderRespData::round_trips(
            entries_view(o)[0].1,
            elems(item_at(items, 0)),
        )
    }

    /// Writes the order as an object under `data`.
    pub fn into_object(self) -> (r: Wire)
        ensures
            self.written_as(r),
    {
        let SubmitOrderRespDataWrap { data } = self;
        let mut e: Vec<(String, Wire)> = Vec::new();
        e.push((String::from_str("data"), data.into_object()));
        let r = Wire::Object(e);
        assert(entries_view(r).len() == 1);
        r
    }

    /// The error that decoding `w` as the order list ends in.
    pub open spec fn rejects(e: ClientError, w: Wire) -> bool {
        if !(w is Array && elems(w).len() > 0) {
            protocol_error(e, w, "SubmitOrderRespDataWrap"@)
        } else {
            SubmitOrderRespData::rejects(e, elems(w)[0])
        }
    }

    /// Decodes the first element of a list as an order; an empty list is a
    /// protocol error.
    pub fn from_wire(w: Wire) -> (r: Result<SubmitOrderRespDataWrap, ClientError>)
        ensures
            r is Ok <==> Self::wire_ok(w),
            r matches Ok(v) ==> v.decoded_from(elems(w)),
            r matches Err(e) ==> Self::rejects(e, w),
    {
        match w {
            Wire::Array(mut items) => {
                if items.len() == 0 {
                    return Err(
                        ClientError::Protocol {
                            record: "SubmitOrderRespDataWrap".to_owned(),
                            payload: Wire::Array(items),
                        },
                    );
                }
                let first = take_item(&mut items, 0);
                match SubmitOrderRespData::from_wire(first) {
                    Ok(data) => Ok(SubmitOrderRespDataWrap { data }),
                    Err(e) => Err(e),
                }
            },
            _ => Err(ClientError::Protocol { record: "SubmitOrderRespDataWrap".to_owned(), payload: w }),
        }
    }
}

/// The notification envelope answering an order submission.
#[derive(Debug)]
pub struct SubmitOrderResp {
    pub mts: i64,
    pub notification_type: String,
    pub message_id: Option<String>,
    pub data: SubmitOrderRespDataWrap,
    pub code: Option<String>,
    pub status: String,
    pub text: Option<String>,
}

/// The order list of a submission answer, decoded from a well-formed list
/// and written back as an object, holds the first element's values.
pub proof fn lemma_submit_order_resp_data_wrap_round_trip(v: SubmitOrderRespDataWrap, items: Seq<Wire>, o: Wire)
    requires
        items.len() > 0,
        SubmitOrderRespData::wire_ok(items[0]),
        v.decoded_from(items),
        v.written_as(o),
    ensures
        SubmitOrderRespDataWrap::round_trips(o, items),
{
    lemma_submit_order_resp_data_round_trip(v.data, elems(items[0]), entries_view(o)[0].1);
}

/// The positions of a SubmitOrderResp, in order.
pub open spec fn submit_order_resp_schema() -> Seq<Slot> {
    seq![Slot::Int, Slot::Str, Slot::OptStr, Slot::Skip, Slot::Any, Slot::OptStr, Slot::Str, Slot::OptStr]
}

fn submit_order_resp_slots() -> (r: Vec<Slot>)
    ensures
        r@ == submit_order_resp_schema(),
{
    vec![Slot::Int, Slot::Str, Slot::OptStr, Slot::Skip, Slot::Any, Slot::OptStr, Slot::Str, Slot::OptStr]
}

impl SubmitOrderResp {
    /// Whether `w` decodes as a SubmitOrderResp.
    pub open spec fn wire_ok(w: Wire) -> bool {
        array_conforms(w, submit_order_resp_schema())
            && succeeded(elems(w))
            && SubmitOrderRespDataWrap::wire_ok(item_at(elems(w), 4))
    }

    /// Whether each named field holds what its position in `items` holds.
    pub open spec fn decoded_from(self, items: Seq<Wire>) -> bool {
        self.mts == int_of(item_at(items, 0))
            && self.notification_type@ == str_of(item_at(items, 1))
            && opt_view(self.message_id) == opt_str_of(item_at(items, 2))
            && self.data.decoded_from(elems(item_at(items, 4)))
            && opt_view(self.code) == opt_str_of(item_at(items, 5))
            && self.status@ == str_of(item_at(items, 6))
            && opt_view(self.text) == opt_str_of(item_at(items, 7))
    }

    /// The error that decoding `w` as a SubmitOrderResp ends in.
    pub open spec fn rejects(e: ClientError, w: Wire) -> bool {
        if !array_conforms(w, submit_order_resp_schema()) {
            protocol_error(e, w, "SubmitOrderResp"@)
        } else if !succeeded(elems(w)) {
            e is Exchange
        } else {
            SubmitOrderRespDataWrap::rejects(e, item_at(elems(w), 4))
        }
    }

    /// Decodes a SubmitOrderResp from its positional form; elements past the last
    /// declared position are ignored.
    pub fn from_wire(w: Wire) -> (r: Result<SubmitOrderResp, ClientError>)
        ensures
            r is Ok <==> Self::wire_ok(w),
            r matches Ok(v) ==> v.decoded_from(elems(w)),
            array_conforms(w, submit_order_resp_schema()) && !succeeded(elems(w)) ==> rejected(r, elems(w)),
            r matches Err(e) ==> (e is Exchange <==> array_conforms(w, submit_order_resp_schema()) && !succeeded(elems(w))),
            r matches Err(e) ==> Self::rejects(e, w),
    {
        let mut items = match expect_array(w, &submit_order_resp_slots(), "SubmitOrderResp") {
            Ok(items) => items,
            Err(e) => return Err(e),
        };
        let null = Wire::Null;
        let mts = read_int(item(&items, 0, &null));
        let notification_type = read_str(item(&items, 1, &null));
        let message_id = read_opt_str(item(&items, 2, &null));
        let code = read_opt_str(item(&items, 5, &null));
        let status = read_str(item(&items, 6, &null));
        let text = read_opt_str(item(&items, 7, &null));
        if !same_text(status.as_str(), "SUCCESS") {
            let code = read_any(take_item(&mut items, 5));
            return Err(ClientError::Exchange { status, code, text });
        }
        let data = match SubmitOrderRespDataWrap::from_wire(take_item(&mut items, 4)) {
            Ok(v) => v,
            Err(e) => return Err(e),
        };
        Ok(SubmitOrderResp { mts, notification_type, message_id, data, code, status, text })
    }
    /// Whether `w` is this record written as an object of its named fields.
    pub open spec fn written_as(self, w: Wire) -> bool {
        w is Object
            && entries_view(w).len() == 7
            && entries_view(w)[0] == ("mts"@, Wire::Int(self.mts))
            && entries_view(w)[1] == ("notification_type"@, Wire::Str(self.notification_type))
            && entries_view(w)[2] == ("message_id"@, opt_str_wire(self.message_id))
            && entries_view(w)[3].0 == "data"@ && self.data.written_as(entries_view(w)[3].1)
            && entries_view(w)[4] == ("code"@, opt_str_wire(self.code))
            && entries_view(w)[5] == ("status"@, Wire::Str(self.status))
            && entries_view(w)[6] == ("text"@, opt_str_wire(self.text))
    }

    /// Whether the object `o` holds, under each field's name, what the
    /// field's position in `items` holds.
    pub open spec fn round_trips(o: Wire, items: Seq<Wire>) -> bool {
        entries_view(o)[0].0 == "mts"@ && same_value(entries_view(o)[0].1, item_at(items, 0))
            && entries_view(o)[1].0 == "notification_type"@ && same_value(entries_view(o)[1].1, item_at(items, 1))
            && entries_view(o)[2].0 == "message_id"@ && same_value(entries_view(o)[2].1, item_at(items, 2))
            && entries_view(o)[3].0 == "data"@ && SubmitOrderRespDataWrap::round_trips(entries_view(o)[3].1, elems(item_at(items, 4)))
            && entries_view(o)[4].0 == "code"@ && same_value(entries_view(o)[4].1, item_at(items, 5))
            && entries_view(o)[5].0 == "status"@ && same_value(entries_view(o)[5].1, item_at(items, 6))
            && entries_view(o)[6].0 == "text"@ && same_value(entries_view(o)[6].1, item_at(items, 7))
    }

    /// Writes the record as an object of its named fields, in order;
    /// reserved positions are not written.
    pub fn into_object(self) -> (r: Wire)
        ensures
            self.written_as(r),
    {
        let SubmitOrderResp { mts, notification_type, message_id, data, code, status, text } = self;
        let mut e: Vec<(String, Wire)> = Vec::new();
        e.push((String::from_str("mts"), Wire::Int(mts)));
        e.push((String::from_str("notification_type"), Wire::Str(notification_type)));
        e.push((String::from_str("message_id"), match message_id {
            Some(x) => Wire::Str(x),
            None => Wire::Null,
        }));
        e.push((String::from_str("data"), data.into_object()));
        e.push((String::from_str("code"), match code {
            Some(x) => Wire::Str(x),
            None => Wire::Null,
        }));
        e.push((String::from_str("status"), Wire::Str(status)));
        e.push((String::from_str("text"), match text {
            Some(x) => Wire::Str(x),
            None => Wire::Null,
        }));
        let r = Wire::Object(e);
        assert(entries_view(r).len() == 7);
        r
    }

}

/// A SubmitOrderResp decoded from a well-formed array and written back as an
/// object holds, under each field's name, the value of that field's position.
pub proof fn lemma_submit_order_resp_round_trip(v: SubmitOrderResp, items: Seq<Wire>, o: Wire)
    requires
        conforms(items, submit_order_resp_schema()),
        SubmitOrderRespDataWrap::wire_ok(item_at(items, 4)),
        v.decoded_from(items),
        v.written_as(o),
    ensures
        SubmitOrderResp::round_trips(o, items),
{
    assert(fits(item_at(items, 0), submit_order_resp_schema()[0]));
    assert(fits(item_at(items, 1), submit_order_resp_schema()[1]));
    assert(fits(item_at(items, 2), submit_order_resp_schema()[2]));
    lemma_submit_order_resp_data_wrap_round_trip(v.data, elems(item_at(items, 4)), entries_view(o)[3].1);
    assert(fits(item_at(items, 5), submit_order_resp_schema()[5]));
    assert(fits(item_at(items, 6), submit_order_resp_schema()[6]));
    assert(fits(item_at(items, 7), submit_order_resp_schema()[7]));
}
impl Order {
    /// Whether `w` is a list of Order records.
    pub open spec fn list_ok(w: Wire) -> bool {
        w is Array && forall|i: int| 0 <= i < elems(w).len() ==> #[trigger] Self::wire_ok(elems(w)[i])
    }

    /// The error that decoding `w` as a list of Order records ends in: the
    /// error of the first element that does not decode.
    pub open spec fn list_rejects(e: ClientError, w: Wire) -> bool {
        if !(w is Array) {
            protocol_error(e, w, "Order list"@)
        } else {
            exists|i: int|
                0 <= i < elems(w).len() && !Self::wire_ok(#[trigger] elems(w)[i]) && Self::rejects(
                    e,
                    elems(w)[i],
                ) && forall|j: int| 0 <= j < i ==> Self::wire_ok(#[trigger] elems(w)[j])
        }
    }

    /// Decodes a list of records, each in its positional form.
    pub fn list_from_wire(w: Wire) -> (r: Result<Vec<Order>, ClientError>)
        ensures
            r is Ok <==> Self::list_ok(w),
            r matches Ok(v) ==> v@.len() == elems(w).len() && forall|i: int|
                0 <= i < v@.len() ==> #[trigger] v@[i].decoded_from(elems(elems(w)[i])),
            r matches Err(e) ==> Self::list_rejects(e, w),
    {
        let ghost gw = w;
        let mut items = match w {
            Wire::Array(items) => items,
            _ => return Err(ClientError::Protocol { record: "Order list".to_owned(), payload: w }),
        };
        let ghost all = items@;
        assert(all == elems(gw));
        let mut out: Vec<Order> = Vec::new();
        let mut i: usize = 0;
        while i < items.len()
            invariant
                i <= items@.len() == all.len(),
                all == elems(gw),
                gw == w,
                out@.len() == i,
                forall|j: int| i <= j < all.len() ==> items@[j] == all[j],
                forall|j: int| 0 <= j < i ==> Self::wire_ok(#[trigger] all[j]),
                forall|j: int| 0 <= j < i ==> #[trigger] out@[j].decoded_from(elems(all[j])),
            decreases all.len() - i,
        {
            let one = take_item(&mut items, i);
            assert(one == all[i as int]);
            match Order::from_wire(one) {
                Ok(v) => out.push(v),
                Err(e) => {
                    assert(!Self::wire_ok(elems(gw)[i as int]));
                    assert(Self::rejects(e, elems(gw)[i as int]));
                    return Err(e);
                },
            }
            i = i + 1;
        }
        Ok(out)
    }
}

/// A request to place an order.
#[derive(Clone, Debug)]
pub struct SubmitOrder {
    pub order_type: String,
    pub symbol: String,
    pub amount: String,
    pub price: String,
}

impl SubmitOrder {
    /// The fields that the request body carries, in order.
    pub open spec fn entries(self) -> Seq<(Seq<char>, FieldValue)> {
        let es = Seq::<(Seq<char>, FieldValue)>::empty();
        let es = es.push(("type"@, FieldValue::Text(self.order_type@)));
        let es = es.push(("symbol"@, FieldValue::Text(self.symbol@)));
        let es = es.push(("amount"@, FieldValue::Text(self.amount@)));
        let es = es.push(("price"@, FieldValue::Text(self.price@)));
        es
    }

    /// The request body: a JSON object of the documented, present fields.
    pub fn to_body(&self) -> (r: String)
        ensures
            r@ == object_text(self.entries()),
    {
        let mut w = ObjectWriter::new();
        w.add("type", Field::Text(self.order_type.clone()));
        w.add("symbol", Field::Text(self.symbol.clone()));
        w.add("amount", Field::Text(self.amount.clone()));
        w.add("price", Field::Text(self.price.clone()));
        w.finish()
    }
}
/// The order endpoints. Each method returns the signed call, ready for the
/// transport; the answer is decoded with the `from_wire` of the record named.
#[derive(Clone, Debug)]
pub struct Orders {
    pub client: Client,
}

/// The path of the order history: of every pair, or of the pair `symbol`
/// when one is given and not empty.
pub open spec fn history_path(symbol: Option<Seq<char>>) -> Seq<char> {
    match symbol {
        Some(sym) => if sym.len() > 0 {
            "orders/t"@ + sym + "/hist"@
        } else {
            "orders/hist"@
        },
        None => "orders/hist"@,
    }
}

impl Orders {
    pub fn new(api_key: Option<String>, secret_key: Option<String>) -> (r: Orders)
        ensures
            r.client.api_key == api_key,
            r.client.secret_key == secret_key,
    {
        Orders { client: Client::new(api_key, secret_key) }
    }

    /// The active orders (`Order::list_from_wire`).
    pub fn active_orders(&self, nonce: u64) -> (r: Result<SignedRequest, ClientError>)
        ensures
            r is Ok <==> self.client.has_credentials(),
            r matches Ok(s) ==> signed_as(s, self.client, OperationKind::Read, "orders"@, nonce, "{}"@),
            r matches Err(e) ==> e is Configuration,
    {
        self.orders("orders", "{}", nonce)
    }

    /// The order history, of one pair or of all (`Order::list_from_wire`).
    pub fn history(&self, symbol: Option<String>, nonce: u64) -> (r: Result<SignedRequest, ClientError>)
        ensures
            r is Ok <==> self.client.has_credentials(),
            r matches Ok(s) ==> signed_as(s, self.client, OperationKind::Read, history_path(opt_view(symbol)), nonce, "{}"@),
            r matches Err(e) ==> e is Configuration,
    {
        match symbol {
            Some(sym) => if sym.unicode_len() > 0 {
                let path = String::from_str("orders/t").concat(sym.as_str()).concat("/hist");
                self.orders(path.as_str(), "{}", nonce)
            } else {
                self.orders("orders/hist", "{}", nonce)
            },
            None => self.orders("orders/hist", "{}", nonce),
        }
    }

    /// A query of orders at `request` with the body `payload`
    /// (`Order::list_from_wire`).
    pub fn orders(&self, request: &str, payload: &str, nonce: u64) -> (r: Result<SignedRequest, ClientError>)
        ensures
            r is Ok <==> self.client.has_credentials(),
            r matches Ok(s) ==> signed_as(s, self.client, OperationKind::Read, request@, nonce, payload@),
            r matches Err(e) ==> e is Configuration,
    {
        self.client.sign(OperationKind::Read, request, nonce, payload)
    }

    /// Places an order (`SubmitOrderResp::from_wire`).
    pub fn submit(&self, req: &SubmitOrder, nonce: u64) -> (r: Result<SignedRequest, ClientError>)
        ensures
            r is Ok <==> self.client.has_credentials(),
            r matches Ok(s) ==> signed_as(s, self.client, OperationKind::Write, "order/submit"@, nonce, object_text(req.entries())),
            r matches Err(e) ==> e is Configuration,
    {
        self.client.sign(OperationKind::Write, "order/submit", nonce, req.to_body().as_str())
    }
}

} // verus!
