//! Decoding of response bodies into the typed records of [`crate::data`].
//!
//! Every decoder pins down both the value it returns and the reason it
//! fails, as a function of the raw body bytes alone.  The decoders follow
//! the remote service's documented irregularities: absent optional fields
//! decode as absent, and designated numeric fields accept the literal empty
//! string as zero.

use vstd::prelude::*;
use vstd::string::StringSliceAdditionalSpecFns;
use vstd::utf8::{decode_utf8, valid_utf8};
use crate::data::{
    AlternateLimits, BuildInfo, BuildInfoRep, Categories, CategoriesRep, ConnectionStatus, Log,
    LogRep, State, Torrent, TorrentRep, Tracker, TrackerRep, TransferInfo, TransferInfoRep,
    spec_connection_status_of, spec_state_of,
};
use crate::error::DecodeReason;
use crate::json::{
    FieldRep, FieldVal, Fields, FieldsRep, fields_view, parse_object_doc, parse_objmap_doc,
    parse_record_array_doc, records_view, spec_object_doc, spec_objmap_doc, spec_record_array_doc,
};
use crate::strutil::{
    bytes_eq_str, copy_range, parse_u64_digits, spec_parse_u64, string_from_utf8,
};

verus! {

/// The value of the first field of the given name, if one is present.
pub open spec fn spec_get_field(fs: FieldsRep, k: Seq<u8>) -> Option<FieldRep>
    decreases fs.len(),
{
    if fs.len() == 0 {
        None
    } else if fs[0].0 == k {
        Some(fs[0].1)
    } else {
        spec_get_field(fs.drop_first(), k)
    }
}

fn clone_field(f: &FieldVal) -> (r: FieldVal)
    ensures
        r@ == f@,
{
    match f {
        FieldVal::Null => FieldVal::Null,
        FieldVal::Bool(b) => FieldVal::Bool(*b),
        FieldVal::Num(v) => {
            let c = copy_range(v, 0, v.len());
            proof {
                assert(v@.subrange(0, v@.len() as int) =~= v@);
            }
            FieldVal::Num(c)
        },
        FieldVal::Text(v) => {
            let c = copy_range(v, 0, v.len());
            proof {
                assert(v@.subrange(0, v@.len() as int) =~= v@);
            }
            FieldVal::Text(c)
        },
        FieldVal::Composite => FieldVal::Composite,
    }
}

fn get_field(fs: &Fields, name: &str) -> (r: Option<FieldVal>)
    ensures
        r is Some <==> spec_get_field(fields_view(fs@), name.spec_bytes()) is Some,
        r is Some ==> r->0@ == spec_get_field(fields_view(fs@), name.spec_bytes())->0,
{
    let ghost fsv = fields_view(fs@);
    let ghost k = name.spec_bytes();
    proof {
        assert(fsv.skip(0) =~= fsv);
    }
    let mut i: usize = 0;
    while i < fs.len()
        invariant
            i <= fs@.len(),
            fsv == fields_view(fs@),
            k == name.spec_bytes(),
            spec_get_field(fsv, k) == spec_get_field(fsv.skip(i as int), k),
        decreases fs@.len() - i,
    {
        let p = &fs[i];
        proof {
            assert(fsv.skip(i as int)[0] == fsv[i as int]);
        }
        if bytes_eq_str(&p.0, name) {
            return Some(clone_field(&p.1));
        }
        proof {
            assert(fsv.skip(i as int).drop_first() =~= fsv.skip(i + 1));
        }
        i += 1;
    }
    None
}

/// The signed integer a numeric token spells, read strictly: an optional
/// leading minus, then decimal digits, and a value in the 64-bit range.
pub open spec fn spec_parse_i64(s: Seq<u8>) -> Option<i64> {
    if s.len() > 0 && s[0] == 0x2d {
        match spec_parse_u64(s.drop_first()) {
            None => None,
            Some(m) => if m <= 0x8000000000000000u64 {
                Some((-(m as int)) as i64)
            } else {
                None
            },
        }
    } else {
        match spec_parse_u64(s) {
            None => None,
            Some(m) => if m <= i64::MAX as u64 {
                Some(m as i64)
            } else {
                None
            },
        }
    }
}

/// Reads a whole byte vector as a signed 64-bit integer.
pub fn parse_i64_bytes(v: &Vec<u8>) -> (r: Option<i64>)
    ensures
        r == spec_parse_i64(v@),
{
    proof {
        assert(v.len() == v@.len());
    }
    if v.len() > 0 && v[0] == 0x2d {
        proof {
            assert(v@.subrange(1, v@.len() as int) =~= v@.drop_first());
        }
        match parse_u64_digits(v, 1, v.len()) {
            None => None,
            Some(m) => {
                if m <= 0x8000000000000000u64 {
                    if m == 0x8000000000000000u64 {
                        proof {
                            assert((-(m as int)) as i64 == i64::MIN);
                        }
                        Some(i64::MIN)
                    } else {
                        proof {
                            assert((-(m as int)) as i64 == -(m as i64));
                        }
                        Some(-(m as i64))
                    }
                } else {
                    None
                }
            },
        }
    } else {
        proof {
            assert(v@.subrange(0, v@.len() as int) =~= v@);
        }
        match parse_u64_digits(v, 0, v.len()) {
            None => None,
            Some(m) => if m <= i64::MAX as u64 {
                Some(m as i64)
            } else {
                None
            },
        }
    }
}

/// Reads a whole byte vector as an unsigned 64-bit integer.
pub fn parse_u64_bytes(v: &Vec<u8>) -> (r: Option<u64>)
    ensures
        r == spec_parse_u64(v@),
{
    proof {
        assert(v.len() == v@.len());
        assert(v@.subrange(0, v@.len() as int) =~= v@);
    }
    parse_u64_digits(v, 0, v.len())
}

/// A required text field: absent fails, a non-string value fails, and the
/// content must be valid UTF-8.
pub open spec fn spec_req_text(fs: FieldsRep, k: Seq<u8>) -> Result<Seq<char>, DecodeReason> {
    match spec_get_field(fs, k) {
        None => Err(DecodeReason::MissingField),
        Some(FieldRep::Text(b)) => if valid_utf8(b) {
            Ok(decode_utf8(b))
        } else {
            Err(DecodeReason::InvalidUtf8)
        },
        Some(_) => Err(DecodeReason::WrongFieldType),
    }
}

fn req_text(fs: &Fields, name: &str) -> (r: Result<String, DecodeReason>)
    ensures
        r is Ok <==> spec_req_text(fields_view(fs@), name.spec_bytes()) is Ok,
        r is Ok ==> (r->Ok_0)@ == spec_req_text(fields_view(fs@), name.spec_bytes())->Ok_0,
        r is Err ==> r->Err_0 == spec_req_text(fields_view(fs@), name.spec_bytes())->Err_0,
{
    match get_field(fs, name) {
        None => Err(DecodeReason::MissingField),
        Some(FieldVal::Text(b)) => match string_from_utf8(b) {
            Some(s) => Ok(s),
            None => Err(DecodeReason::InvalidUtf8),
        },
        Some(_) => Err(DecodeReason::WrongFieldType),
    }
}

/// A required signed integer field: the value must be a numeric literal
/// spelling an integer in the 64-bit range.
pub open spec fn spec_req_i64(fs: FieldsRep, k: Seq<u8>) -> Result<i64, DecodeReason> {
    match spec_get_field(fs, k) {
        None => Err(DecodeReason::MissingField),
        Some(FieldRep::Num(b)) => match spec_parse_i64(b) {
            Some(n) => Ok(n),
            None => Err(DecodeReason::InvalidInteger),
        },
        Some(_) => Err(DecodeReason::WrongFieldType),
    }
}

fn req_i64(fs: &Fields, name: &str) -> (r: Result<i64, DecodeReason>)
    ensures
        r is Ok <==> spec_req_i64(fields_view(fs@), name.spec_bytes()) is Ok,
        r is Ok ==> r->Ok_0 == spec_req_i64(fields_view(fs@), name.spec_bytes())->Ok_0,
        r is Err ==> r->Err_0 == spec_req_i64(fields_view(fs@), name.spec_bytes())->Err_0,
{
    match get_field(fs, name) {
        None => Err(DecodeReason::MissingField),
        Some(FieldVal::Num(b)) => match parse_i64_bytes(&b) {
            Some(n) => Ok(n),
            None => Err(DecodeReason::InvalidInteger),
        },
        Some(_) => Err(DecodeReason::WrongFieldType),
    }
}

/// A required unsigned integer field.
pub open spec fn spec_req_u64(fs: FieldsRep, k: Seq<u8>) -> Result<u64, DecodeReason> {
    match spec_get_field(fs, k) {
        None => Err(DecodeReason::MissingField),
        Some(FieldRep::Num(b)) => match spec_parse_u64(b) {
            Some(n) => Ok(n),
            None => Err(DecodeReason::InvalidInteger),
        },
        Some(_) => Err(DecodeReason::WrongFieldType),
    }
}

fn req_u64(fs: &Fields, name: &str) -> (r: Result<u64, DecodeReason>)
    ensures
        r is Ok <==> spec_req_u64(fields_view(fs@), name.spec_bytes()) is Ok,
        r is Ok ==> r->Ok_0 == spec_req_u64(fields_view(fs@), name.spec_bytes())->Ok_0,
        r is Err ==> r->Err_0 == spec_req_u64(fields_view(fs@), name.spec_bytes())->Err_0,
{
    match get_field(fs, name) {
        None => Err(DecodeReason::MissingField),
        Some(FieldVal::Num(b)) => match parse_u64_bytes(&b) {
            Some(n) => Ok(n),
            None => Err(DecodeReason::InvalidInteger),
        },
        Some(_) => Err(DecodeReason::WrongFieldType),
    }
}

/// A permissive unsigned 32-bit field, the documented irregularity of the
/// remote service: a numeric literal in range is its value; the literal
/// empty string decodes as zero; any other string value is an error, and so
/// is any other shape of value.
pub open spec fn spec_permissive_u32(fs: FieldsRep, k: Seq<u8>) -> Result<u32, DecodeReason> {
    match spec_get_field(fs, k) {
        None => Err(DecodeReason::MissingField),
        Some(FieldRep::Num(b)) => match spec_parse_u64(b) {
            Some(n) => if n <= u32::MAX as u64 {
                Ok(n as u32)
            } else {
                Err(DecodeReason::InvalidInteger)
            },
            None => Err(DecodeReason::InvalidInteger),
        },
        Some(FieldRep::Text(b)) => if b.len() == 0 {
            Ok(0)
        } else {
            Err(DecodeReason::InvalidInteger)
        },
        Some(_) => Err(DecodeReason::WrongFieldType),
    }
}

/// Reads a field under the permissive numeric rule: an integer in range, or
/// the empty string standing for zero.
pub fn permissive_u32(fs: &Fields, name: &str) -> (r: Result<u32, DecodeReason>)
    ensures
        r is Ok <==> spec_permissive_u32(fields_view(fs@), name.spec_bytes()) is Ok,
        r is Ok ==> r->Ok_0 == spec_permissive_u32(fields_view(fs@), name.spec_bytes())->Ok_0,
        r is Err ==> r->Err_0 == spec_permissive_u32(fields_view(fs@), name.spec_bytes())->Err_0,
{
    match get_field(fs, name) {
        None => Err(DecodeReason::MissingField),
        Some(FieldVal::Num(b)) => match parse_u64_bytes(&b) {
            Some(n) => if n <= u32::MAX as u64 {
                Ok(n as u32)
            } else {
                Err(DecodeReason::InvalidInteger)
            },
            None => Err(DecodeReason::InvalidInteger),
        },
        Some(FieldVal::Text(b)) => if b.len() == 0 {
            Ok(0)
        } else {
            Err(DecodeReason::InvalidInteger)
        },
        Some(_) => Err(DecodeReason::WrongFieldType),
    }
}

/// An optional boolean field: absent or null decodes as absent.
pub open spec fn spec_opt_bool(fs: FieldsRep, k: Seq<u8>) -> Result<Option<bool>, DecodeReason> {
    match spec_get_field(fs, k) {
        None => Ok(None),
        Some(FieldRep::Null) => Ok(None),
        Some(FieldRep::Bool(b)) => Ok(Some(b)),
        Some(_) => Err(DecodeReason::WrongFieldType),
    }
}

fn opt_bool(fs: &Fields, name: &str) -> (r: Result<Option<bool>, DecodeReason>)
    ensures
        r is Ok <==> spec_opt_bool(fields_view(fs@), name.spec_bytes()) is Ok,
        r is Ok ==> r->Ok_0 == spec_opt_bool(fields_view(fs@), name.spec_bytes())->Ok_0,
        r is Err ==> r->Err_0 == spec_opt_bool(fields_view(fs@), name.spec_bytes())->Err_0,
{
    match get_field(fs, name) {
        None => Ok(None),
        Some(FieldVal::Null) => Ok(None),
        Some(FieldVal::Bool(b)) => Ok(Some(b)),
        Some(_) => Err(DecodeReason::WrongFieldType),
    }
}

/// A required state field: a string holding one of the defined wire tokens.
pub open spec fn spec_req_state(fs: FieldsRep, k: Seq<u8>) -> Result<State, DecodeReason> {
    match spec_get_field(fs, k) {
        None => Err(DecodeReason::MissingField),
        Some(FieldRep::Text(b)) => match spec_state_of(b) {
            Some(st) => Ok(st),
            None => Err(DecodeReason::UnknownToken),
        },
        Some(_) => Err(DecodeReason::WrongFieldType),
    }
}

fn req_state(fs: &Fields, name: &str) -> (r: Result<State, DecodeReason>)
    ensures
        r is Ok <==> spec_req_state(fields_view(fs@), name.spec_bytes()) is Ok,
        r is Ok ==> r->Ok_0 == spec_req_state(fields_view(fs@), name.spec_bytes())->Ok_0,
        r is Err ==> r->Err_0 == spec_req_state(fields_view(fs@), name.spec_bytes())->Err_0,
{
    match get_field(fs, name) {
        None => Err(DecodeReason::MissingField),
        Some(FieldVal::Text(b)) => match State::from_token(&b) {
            Some(st) => Ok(st),
            None => Err(DecodeReason::UnknownToken),
        },
        Some(_) => Err(DecodeReason::WrongFieldType),
    }
}

/// A required connection-status field.
pub open spec fn spec_req_connection_status(fs: FieldsRep, k: Seq<u8>) -> Result<
    ConnectionStatus,
    DecodeReason,
> {
    match spec_get_field(fs, k) {
        None => Err(DecodeReason::MissingField),
        Some(FieldRep::Text(b)) => match spec_connection_status_of(b) {
            Some(cs) => Ok(cs),
            None => Err(DecodeReason::UnknownToken),
        },
        Some(_) => Err(DecodeReason::WrongFieldType),
    }
}

fn req_connection_status(fs: &Fields, name: &str) -> (r: Result<ConnectionStatus, DecodeReason>)
    ensures
        r is Ok <==> spec_req_connection_status(fields_view(fs@), name.spec_bytes()) is Ok,
        r is Ok ==> r->Ok_0 == spec_req_connection_status(fields_view(fs@), name.spec_bytes())
            ->Ok_0,
        r is Err ==> r->Err_0 == spec_req_connection_status(fields_view(fs@), name.spec_bytes())
            ->Err_0,
{
    match get_field(fs, name) {
        None => Err(DecodeReason::MissingField),
        Some(FieldVal::Text(b)) => match ConnectionStatus::from_token(&b) {
            Some(cs) => Ok(cs),
            None => Err(DecodeReason::UnknownToken),
        },
        Some(_) => Err(DecodeReason::WrongFieldType),
    }
}

/// The tracker record a field set stands for, or the first failing field in
/// the order url, status, num_peers, msg.
pub open spec fn spec_tracker_from(fs: FieldsRep) -> Result<TrackerRep, DecodeReason> {
    if spec_req_text(fs, "url".spec_bytes()) is Err {
        Err(spec_req_text(fs, "url".spec_bytes())->Err_0)
    } else if spec_req_i64(fs, "status".spec_bytes()) is Err {
        Err(spec_req_i64(fs, "status".spec_bytes())->Err_0)
    } else if spec_req_i64(fs, "num_peers".spec_bytes()) is Err {
        Err(spec_req_i64(fs, "num_peers".spec_bytes())->Err_0)
    } else if spec_req_text(fs, "msg".spec_bytes()) is Err {
        Err(spec_req_text(fs, "msg".spec_bytes())->Err_0)
    } else {
        Ok(
            TrackerRep {
                url: spec_req_text(fs, "url".spec_bytes())->Ok_0,
                status: spec_req_i64(fs, "status".spec_bytes())->Ok_0 as int,
                num_peers: spec_req_i64(fs, "num_peers".spec_bytes())->Ok_0 as int,
                msg: spec_req_text(fs, "msg".spec_bytes())->Ok_0,
            },
        )
    }
}

/// Decodes one tracker record from its field set.
pub fn tracker_from_fields(fs: &Fields) -> (r: Result<Tracker, DecodeReason>)
    ensures
        r is Ok <==> spec_tracker_from(fields_view(fs@)) is Ok,
        r is Ok ==> (r->Ok_0)@ == spec_tracker_from(fields_view(fs@))->Ok_0,
        r is Err ==> r->Err_0 == spec_tracker_from(fields_view(fs@))->Err_0,
{
    let url = match req_text(fs, "url") {
        Ok(x) => x,
        Err(e) => {
            return Err(e);
        },
    };
    let status = match req_i64(fs, "status") {
        Ok(x) => x,
        Err(e) => {
            return Err(e);
        },
    };
    let num_peers = match req_i64(fs, "num_peers") {
        Ok(x) => x,
        Err(e) => {
            return Err(e);
        },
    };
    let msg = match req_text(fs, "msg") {
        Ok(x) => x,
        Err(e) => {
            return Err(e);
        },
    };
    Ok(Tracker { url, status, num_peers, msg })
}

/// The item record a field set stands for, or the first failing field in
/// the order added_on, amount_left, category, dlspeed, upspeed,
/// f_l_piece_prio, hash, name, size, state, tags.
pub open spec fn spec_torrent_from(fs: FieldsRep) -> Result<TorrentRep, DecodeReason> {
    if spec_permissive_u32(fs, "added_on".spec_bytes()) is Err {
        Err(spec_permissive_u32(fs, "added_on".spec_bytes())->Err_0)
    } else if spec_req_u64(fs, "amount_left".spec_bytes()) is Err {
        Err(spec_req_u64(fs, "amount_left".spec_bytes())->Err_0)
    } else if spec_req_text(fs, "category".spec_bytes()) is Err {
        Err(spec_req_text(fs, "category".spec_bytes())->Err_0)
    } else if spec_req_i64(fs, "dlspeed".spec_bytes()) is Err {
        Err(spec_req_i64(fs, "dlspeed".spec_bytes())->Err_0)
    } else if spec_req_i64(fs, "upspeed".spec_bytes()) is Err {
        Err(spec_req_i64(fs, "upspeed".spec_bytes())->Err_0)
    } else if spec_opt_bool(fs, "f_l_piece_prio".spec_bytes()) is Err {
        Err(spec_opt_bool(fs, "f_l_piece_prio".spec_bytes())->Err_0)
    } else if spec_req_text(fs, "hash".spec_bytes()) is Err {
        Err(spec_req_text(fs, "hash".spec_bytes())->Err_0)
    } else if spec_req_text(fs, "name".spec_bytes()) is Err {
        Err(spec_req_text(fs, "name".spec_bytes())->Err_0)
    } else if spec_req_i64(fs, "size".spec_bytes()) is Err {
        Err(spec_req_i64(fs, "size".spec_bytes())->Err_0)
    } else if spec_req_state(fs, "state".spec_bytes()) is Err {
        Err(spec_req_state(fs, "state".spec_bytes())->Err_0)
    } else if spec_req_text(fs, "tags".spec_bytes()) is Err {
        Err(spec_req_text(fs, "tags".spec_bytes())->Err_0)
    } else {
        Ok(
            TorrentRep {
                added_on: spec_permissive_u32(fs, "added_on".spec_bytes())->Ok_0 as int,
                amount_left: spec_req_u64(fs, "amount_left".spec_bytes())->Ok_0 as int,
                category: spec_req_text(fs, "category".spec_bytes())->Ok_0,
                dlspeed: spec_req_i64(fs, "dlspeed".spec_bytes())->Ok_0 as int,
                upspeed: spec_req_i64(fs, "upspeed".spec_bytes())->Ok_0 as int,
                f_l_piece_prio: spec_opt_bool(fs, "f_l_piece_prio".spec_bytes())->Ok_0,
                hash: spec_req_text(fs, "hash".spec_bytes())->Ok_0,
                name: spec_req_text(fs, "name".spec_bytes())->Ok_0,
                size: spec_req_i64(fs, "size".spec_bytes())->Ok_0 as int,
                state: spec_req_state(fs, "state".spec_bytes())->Ok_0,
                tags: spec_req_text(fs, "tags".spec_bytes())->Ok_0,
            },
        )
    }
}

/// Decodes one item record from its field set.
pub fn torrent_from_fields(fs: &Fields) -> (r: Result<Torrent, DecodeReason>)
    ensures
        r is Ok <==> spec_torrent_from(fields_view(fs@)) is Ok,
        r is Ok ==> (r->Ok_0)@ == spec_torrent_from(fields_view(fs@))->Ok_0,
        r is Err ==> r->Err_0 == spec_torrent_from(fields_view(fs@))->Err_0,
{
    let added_on = match permissive_u32(fs, "added_on") {
        Ok(x) => x,
        Err(e) => {
            return Err(e);
        },
    };
    let amount_left = match req_u64(fs, "amount_left") {
        Ok(x) => x,
        Err(e) => {
            return Err(e);
        },
    };
    let category = match req_text(fs, "category") {
        Ok(x) => x,
        Err(e) => {
            return Err(e);
        },
    };
    let dlspeed = match req_i64(fs, "dlspeed") {
        Ok(x) => x,
        Err(e) => {
            return Err(e);
        },
    };
    let upspeed = match req_i64(fs, "upspeed") {
        Ok(x) => x,
        Err(e) => {
            return Err(e);
        },
    };
    let f_l_piece_prio = match opt_bool(fs, "f_l_piece_prio") {
        Ok(x) => x,
        Err(e) => {
            return Err(e);
        },
    };
    let hash = match req_text(fs, "hash") {
        Ok(x) => x,
        Err(e) => {
            return Err(e);
        },
    };
    let name = match req_text(fs, "name") {
        Ok(x) => x,
        Err(e) => {
            return Err(e);
        },
    };
    let size = match req_i64(fs, "size") {
        Ok(x) => x,
        Err(e) => {
            return Err(e);
        },
    };
    let state = match req_state(fs, "state") {
        Ok(x) => x,
        Err(e) => {
            return Err(e);
        },
    };
    let tags = match req_text(fs, "tags") {
        Ok(x) => x,
        Err(e) => {
            return Err(e);
        },
    };
    Ok(
        Torrent {
            added_on,
            amount_left,
            category,
            dlspeed,
            upspeed,
            f_l_piece_prio,
            hash: crate::data::Hash { hash },
            name,
            size,
            state,
            tags,
        },
    )
}

/// The log record a field set stands for, or the first failing field in
/// the order id, message, timestamp, type.
pub open spec fn spec_log_from(fs: FieldsRep) -> Result<LogRep, DecodeReason> {
    if spec_req_u64(fs, "id".spec_bytes()) is Err {
        Err(spec_req_u64(fs, "id".spec_bytes())->Err_0)
    } else if spec_req_text(fs, "message".spec_bytes()) is Err {
        Err(spec_req_text(fs, "message".spec_bytes())->Err_0)
    } else if spec_req_u64(fs, "timestamp".spec_bytes()) is Err {
        Err(spec_req_u64(fs, "timestamp".spec_bytes())->Err_0)
    } else if spec_req_u64(fs, "type".spec_bytes()) is Err {
        Err(spec_req_u64(fs, "type".spec_bytes())->Err_0)
    } else {
        Ok(
            LogRep {
                id: spec_req_u64(fs, "id".spec_bytes())->Ok_0 as int,
                message: spec_req_text(fs, "message".spec_bytes())->Ok_0,
                timestamp: spec_req_u64(fs, "timestamp".spec_bytes())->Ok_0 as int,
                kind: spec_req_u64(fs, "type".spec_bytes())->Ok_0 as int,
            },
        )
    }
}

/// Decodes one log record from its field set; the wire calls the severity
/// field `type`.
pub fn log_from_fields(fs: &Fields) -> (r: Result<Log, DecodeReason>)
    ensures
        r is Ok <==> spec_log_from(fields_view(fs@)) is Ok,
        r is Ok ==> (r->Ok_0)@ == spec_log_from(fields_view(fs@))->Ok_0,
        r is Err ==> r->Err_0 == spec_log_from(fields_view(fs@))->Err_0,
{
    let id = match req_u64(fs, "id") {
        Ok(x) => x,
        Err(e) => {
            return Err(e);
        },
    };
    let message = match req_text(fs, "message") {
        Ok(x) => x,
        Err(e) => {
            return Err(e);
        },
    };
    let timestamp = match req_u64(fs, "timestamp") {
        Ok(x) => x,
        Err(e) => {
            return Err(e);
        },
    };
    let kind = match req_u64(fs, "type") {
        Ok(x) => x,
        Err(e) => {
            return Err(e);
        },
    };
    Ok(Log { id, message, timestamp, kind })
}

/// The transfer-statistics record a field set stands for.
pub open spec fn spec_transfer_info_from(fs: FieldsRep) -> Result<TransferInfoRep, DecodeReason> {
    if spec_req_u64(fs, "dl_info_speed".spec_bytes()) is Err {
        Err(spec_req_u64(fs, "dl_info_speed".spec_bytes())->Err_0)
    } else if spec_req_u64(fs, "dl_info_data".spec_bytes()) is Err {
        Err(spec_req_u64(fs, "dl_info_data".spec_bytes())->Err_0)
    } else if spec_req_u64(fs, "up_info_speed".spec_bytes()) is Err {
        Err(spec_req_u64(fs, "up_info_speed".spec_bytes())->Err_0)
    } else if spec_req_u64(fs, "up_info_data".spec_bytes()) is Err {
        Err(spec_req_u64(fs, "up_info_data".spec_bytes())->Err_0)
    } else if spec_req_u64(fs, "dl_rate_limit".spec_bytes()) is Err {
        Err(spec_req_u64(fs, "dl_rate_limit".spec_bytes())->Err_0)
    } else if spec_req_u64(fs, "up_rate_limit".spec_bytes()) is Err {
        Err(spec_req_u64(fs, "up_rate_limit".spec_bytes())->Err_0)
    } else if spec_req_u64(fs, "dht_nodes".spec_bytes()) is Err {
        Err(spec_req_u64(fs, "dht_nodes".spec_bytes())->Err_0)
    } else if spec_req_connection_status(fs, "connection_status".spec_bytes()) is Err {
        Err(spec_req_connection_status(fs, "connection_status".spec_bytes())->Err_0)
    } else {
        Ok(
            TransferInfoRep {
                dl_info_speed: spec_req_u64(fs, "dl_info_speed".spec_bytes())->Ok_0 as int,
                dl_info_data: spec_req_u64(fs, "dl_info_data".spec_bytes())->Ok_0 as int,
                up_info_speed: spec_req_u64(fs, "up_info_speed".spec_bytes())->Ok_0 as int,
                up_info_data: spec_req_u64(fs, "up_info_data".spec_bytes())->Ok_0 as int,
                dl_rate_limit: spec_req_u64(fs, "dl_rate_limit".spec_bytes())->Ok_0 as int,
                up_rate_limit: spec_req_u64(fs, "up_rate_limit".spec_bytes())->Ok_0 as int,
                dht_nodes: spec_req_u64(fs, "dht_nodes".spec_bytes())->Ok_0 as int,
                connection_status: spec_req_connection_status(
                    fs,
                    "connection_status".spec_bytes(),
                )->Ok_0,
            },
        )
    }
}

/// Decodes the transfer-statistics record from its field set.
pub fn transfer_info_from_fields(fs: &Fields) -> (r: Result<TransferInfo, DecodeReason>)
    ensures
        r is Ok <==> spec_transfer_info_from(fields_view(fs@)) is Ok,
        r is Ok ==> (r->Ok_0)@ == spec_transfer_info_from(fields_view(fs@))->Ok_0,
        r is Err ==> r->Err_0 == spec_transfer_info_from(fields_view(fs@))->Err_0,
{
    let dl_info_speed = match req_u64(fs, "dl_info_speed") {
        Ok(x) => x,
        Err(e) => {
            return Err(e);
        },
    };
    let dl_info_data = match req_u64(fs, "dl_info_data") {
        Ok(x) => x,
        Err(e) => {
            return Err(e);
        },
    };
    let up_info_speed = match req_u64(fs, "up_info_speed") {
        Ok(x) => x,
        Err(e) => {
            return Err(e);
        },
    };
    let up_info_data = match req_u64(fs, "up_info_data") {
        Ok(x) => x,
        Err(e) => {
            return Err(e);
        },
    };
    let dl_rate_limit = match req_u64(fs, "dl_rate_limit") {
        Ok(x) => x,
        Err(e) => {
            return Err(e);
        },
    };
    let up_rate_limit = match req_u64(fs, "up_rate_limit") {
        Ok(x) => x,
        Err(e) => {
            return Err(e);
        },
    };
    let dht_nodes = match req_u64(fs, "dht_nodes") {
        Ok(x) => x,
        Err(e) => {
            return Err(e);
        },
    };
    let connection_status = match req_connection_status(fs, "connection_status") {
        Ok(x) => x,
        Err(e) => {
            return Err(e);
        },
    };
    Ok(
        TransferInfo {
            dl_info_speed,
            dl_info_data,
            up_info_speed,
            up_info_data,
            dl_rate_limit,
            up_rate_limit,
            dht_nodes,
            connection_status,
        },
    )
}

/// The build-information record a field set stands for.
pub open spec fn spec_build_info_from(fs: FieldsRep) -> Result<BuildInfoRep, DecodeReason> {
    if spec_req_text(fs, "qt".spec_bytes()) is Err {
        Err(spec_req_text(fs, "qt".spec_bytes())->Err_0)
    } else if spec_req_text(fs, "libtorrent".spec_bytes()) is Err {
        Err(spec_req_text(fs, "libtorrent".spec_bytes())->Err_0)
    } else if spec_req_text(fs, "boost".spec_bytes()) is Err {
        Err(spec_req_text(fs, "boost".spec_bytes())->Err_0)
    } else if spec_req_text(fs, "openssl".spec_bytes()) is Err {
        Err(spec_req_text(fs, "openssl".spec_bytes())->Err_0)
    } else if spec_req_text(fs, "bitness".spec_bytes()) is Err {
        Err(spec_req_text(fs, "bitness".spec_bytes())->Err_0)
    } else {
        Ok(
            BuildInfoRep {
                qt: spec_req_text(fs, "qt".spec_bytes())->Ok_0,
                libtorrent: spec_req_text(fs, "libtorrent".spec_bytes())->Ok_0,
                boost: spec_req_text(fs, "boost".spec_bytes())->Ok_0,
                openssl: spec_req_text(fs, "openssl".spec_bytes())->Ok_0,
                bitness: spec_req_text(fs, "bitness".spec_bytes())->Ok_0,
            },
        )
    }
}

/// Decodes the build-information record from its field set.
pub fn build_info_from_fields(fs: &Fields) -> (r: Result<BuildInfo, DecodeReason>)
    ensures
        r is Ok <==> spec_build_info_from(fields_view(fs@)) is Ok,
        r is Ok ==> (r->Ok_0)@ == spec_build_info_from(fields_view(fs@))->Ok_0,
        r is Err ==> r->Err_0 == spec_build_info_from(fields_view(fs@))->Err_0,
{
    let qt = match req_text(fs, "qt") {
        Ok(x) => x,
        Err(e) => {
            return Err(e);
        },
    };
    let libtorrent = match req_text(fs, "libtorrent") {
        Ok(x) => x,
        Err(e) => {
            return Err(e);
        },
    };
    let boost = match req_text(fs, "boost") {
        Ok(x) => x,
        Err(e) => {
            return Err(e);
        },
    };
    let openssl = match req_text(fs, "openssl") {
        Ok(x) => x,
        Err(e) => {
            return Err(e);
        },
    };
    let bitness = match req_text(fs, "bitness") {
        Ok(x) => x,
        Err(e) => {
            return Err(e);
        },
    };
    Ok(BuildInfo { qt, libtorrent, boost, openssl, bitness })
}

/// The category record a field set stands for.
pub open spec fn spec_categories_entry_from(fs: FieldsRep) -> Result<CategoriesRep, DecodeReason> {
    if spec_req_text(fs, "name".spec_bytes()) is Err {
        Err(spec_req_text(fs, "name".spec_bytes())->Err_0)
    } else if spec_req_text(fs, "savePath".spec_bytes()) is Err {
        Err(spec_req_text(fs, "savePath".spec_bytes())->Err_0)
    } else {
        Ok(
            CategoriesRep {
                name: spec_req_text(fs, "name".spec_bytes())->Ok_0,
                save_path: spec_req_text(fs, "savePath".spec_bytes())->Ok_0,
            },
        )
    }
}

/// Decodes one category record from its field set; the wire calls the
/// save-path field `savePath`.
pub fn categories_entry_from_fields(fs: &Fields) -> (r: Result<Categories, DecodeReason>)
    ensures
        r is Ok <==> spec_categories_entry_from(fields_view(fs@)) is Ok,
        r is Ok ==> (r->Ok_0)@ == spec_categories_entry_from(fields_view(fs@))->Ok_0,
        r is Err ==> r->Err_0 == spec_categories_entry_from(fields_view(fs@))->Err_0,
{
    let name = match req_text(fs, "name") {
        Ok(x) => x,
        Err(e) => {
            return Err(e);
        },
    };
    let save_path = match req_text(fs, "savePath") {
        Ok(x) => x,
        Err(e) => {
            return Err(e);
        },
    };
    Ok(Categories { name, save_path })
}

/// The tracker sequence a vector of tracker records stands for.
pub open spec fn trackers_view(ts: Seq<Tracker>) -> Seq<TrackerRep> {
    ts.map_values(|t: Tracker| t@)
}

/// The item sequence a vector of item records stands for.
pub open spec fn torrents_view(ts: Seq<Torrent>) -> Seq<TorrentRep> {
    ts.map_values(|t: Torrent| t@)
}

/// The log sequence a vector of log records stands for.
pub open spec fn logs_view(ls: Seq<Log>) -> Seq<LogRep> {
    ls.map_values(|l: Log| l@)
}

/// The trackers of a record sequence, in order, or the first record's error.
pub open spec fn spec_trackers_of(rs: Seq<FieldsRep>) -> Result<Seq<TrackerRep>, DecodeReason>
    decreases rs.len(),
{
    if rs.len() == 0 {
        Ok(Seq::empty())
    } else {
        match spec_tracker_from(rs[0]) {
            Err(e) => Err(e),
            Ok(t) => match spec_trackers_of(rs.drop_first()) {
                Err(e) => Err(e),
                Ok(rest) => Ok(seq![t] + rest),
            },
        }
    }
}

/// The items of a record sequence, in order, or the first record's error.
pub open spec fn spec_torrents_of(rs: Seq<FieldsRep>) -> Result<Seq<TorrentRep>, DecodeReason>
    decreases rs.len(),
{
    if rs.len() == 0 {
        Ok(Seq::empty())
    } else {
        match spec_torrent_from(rs[0]) {
            Err(e) => Err(e),
            Ok(t) => match spec_torrents_of(rs.drop_first()) {
                Err(e) => Err(e),
                Ok(rest) => Ok(seq![t] + rest),
            },
        }
    }
}

/// The log entries of a record sequence, in order, or the first record's
/// error.
pub open spec fn spec_logs_of(rs: Seq<FieldsRep>) -> Result<Seq<LogRep>, DecodeReason>
    decreases rs.len(),
{
    if rs.len() == 0 {
        Ok(Seq::empty())
    } else {
        match spec_log_from(rs[0]) {
            Err(e) => Err(e),
            Ok(t) => match spec_logs_of(rs.drop_first()) {
                Err(e) => Err(e),
                Ok(rest) => Ok(seq![t] + rest),
            },
        }
    }
}

/// What a tracker-list body decodes to: the trackers in server order, with
/// no reordering and no deduplication; a body that is not a well-formed
/// array of records fails as malformed.
pub open spec fn spec_decode_trackers(s: Seq<u8>) -> Result<Seq<TrackerRep>, DecodeReason> {
    match spec_record_array_doc(s) {
        None => Err(DecodeReason::MalformedBody),
        Some(rs) => spec_trackers_of(rs),
    }
}

/// Decodes a tracker-list body.
pub fn decode_trackers(body: &Vec<u8>) -> (r: Result<Vec<Tracker>, DecodeReason>)
    ensures
        r is Ok <==> spec_decode_trackers(body@) is Ok,
        r is Ok ==> trackers_view((r->Ok_0)@) == spec_decode_trackers(body@)->Ok_0,
        r is Err ==> r->Err_0 == spec_decode_trackers(body@)->Err_0,
{
    let records = match parse_record_array_doc(body) {
        None => {
            return Err(DecodeReason::MalformedBody);
        },
        Some(x) => x,
    };
    let ghost rv = records_view(records@);
    let mut out: Vec<Tracker> = Vec::new();
    let mut i: usize = 0;
    proof {
        assert(rv.skip(0) =~= rv);
    }
    while i < records.len()
        invariant
            i <= records@.len(),
            rv == records_view(records@),
            spec_record_array_doc(body@) == Some(rv),
            match spec_trackers_of(rv.skip(i as int)) {
                Err(e) => spec_trackers_of(rv) == Err::<Seq<TrackerRep>, DecodeReason>(e),
                Ok(rest) => spec_trackers_of(rv) == Ok::<Seq<TrackerRep>, DecodeReason>(
                    trackers_view(out@) + rest,
                ),
            },
        decreases records@.len() - i,
    {
        proof {
            assert(rv.skip(i as int)[0] == rv[i as int]);
            assert(rv[i as int] == fields_view(records@[i as int]@));
        }
        match tracker_from_fields(&records[i]) {
            Err(e) => {
                return Err(e);
            },
            Ok(t) => {
                let ghost out0 = trackers_view(out@);
                let ghost trep = t@;
                out.push(t);
                proof {
                    assert(trackers_view(out@) =~= out0 + seq![trep]);
                    assert(rv.skip(i as int).drop_first() =~= rv.skip(i + 1));
                    if spec_trackers_of(rv.skip(i + 1)) is Ok {
                        let rest2 = spec_trackers_of(rv.skip(i + 1))->Ok_0;
                        assert((out0 + seq![trep]) + rest2 =~= out0 + (seq![trep] + rest2));
                    }
                }
                i += 1;
            },
        }
    }
    proof {
        assert(rv.skip(i as int) =~= Seq::<FieldsRep>::empty());
        assert(trackers_view(out@) + Seq::<TrackerRep>::empty() =~= trackers_view(out@));
    }
    Ok(out)
}

/// What an item-list body decodes to: the items in server order, with no
/// reordering and no deduplication; a body that is not a well-formed array
/// of records fails as malformed.  The empty array decodes to the empty
/// sequence, never to an error.
pub open spec fn spec_decode_torrents(s: Seq<u8>) -> Result<Seq<TorrentRep>, DecodeReason> {
    match spec_record_array_doc(s) {
        None => Err(DecodeReason::MalformedBody),
        Some(rs) => spec_torrents_of(rs),
    }
}

/// Decodes an item-list body.
pub fn decode_torrents(body: &Vec<u8>) -> (r: Result<Vec<Torrent>, DecodeReason>)
    ensures
        r is Ok <==> spec_decode_torrents(body@) is Ok,
        r is Ok ==> torrents_view((r->Ok_0)@) == spec_decode_torrents(body@)->Ok_0,
        r is Err ==> r->Err_0 == spec_decode_torrents(body@)->Err_0,
{
    let records = match parse_record_array_doc(body) {
        None => {
            return Err(DecodeReason::MalformedBody);
        },
        Some(x) => x,
    };
    let ghost rv = records_view(records@);
    let mut out: Vec<Torrent> = Vec::new();
    let mut i: usize = 0;
    proof {
        assert(rv.skip(0) =~= rv);
    }
    while i < records.len()
        invariant
            i <= records@.len(),
            rv == records_view(records@),
            spec_record_array_doc(body@) == Some(rv),
            match spec_torrents_of(rv.skip(i as int)) {
                Err(e) => spec_torrents_of(rv) == Err::<Seq<TorrentRep>, DecodeReason>(e),
                Ok(rest) => spec_torrents_of(rv) == Ok::<Seq<TorrentRep>, DecodeReason>(
                    torrents_view(out@) + rest,
                ),
            },
        decreases records@.len() - i,
    {
        proof {
            assert(rv.skip(i as int)[0] == rv[i as int]);
            assert(rv[i as int] == fields_view(records@[i as int]@));
        }
        match torrent_from_fields(&records[i]) {
            Err(e) => {
                return Err(e);
            },
            Ok(t) => {
                let ghost out0 = torrents_view(out@);
                let ghost trep = t@;
                out.push(t);
                proof {
                    assert(torrents_view(out@) =~= out0 + seq![trep]);
                    assert(rv.skip(i as int).drop_first() =~= rv.skip(i + 1));
                    if spec_torrents_of(rv.skip(i + 1)) is Ok {
                        let rest2 = spec_torrents_of(rv.skip(i + 1))->Ok_0;
                        assert((out0 + seq![trep]) + rest2 =~= out0 + (seq![trep] + rest2));
                    }
                }
                i += 1;
            },
        }
    }
    proof {
        assert(rv.skip(i as int) =~= Seq::<FieldsRep>::empty());
        assert(torrents_view(out@) + Seq::<TorrentRep>::empty() =~= torrents_view(out@));
    }
    Ok(out)
}

/// What a log-list body decodes to: the entries in server order.
pub open spec fn spec_decode_logs(s: Seq<u8>) -> Result<Seq<LogRep>, DecodeReason> {
    match spec_record_array_doc(s) {
        None => Err(DecodeReason::MalformedBody),
        Some(rs) => spec_logs_of(rs),
    }
}

/// Decodes a log-list body.
pub fn decode_logs(body: &Vec<u8>) -> (r: Result<Vec<Log>, DecodeReason>)
    ensures
        r is Ok <==> spec_decode_logs(body@) is Ok,
        r is Ok ==> logs_view((r->Ok_0)@) == spec_decode_logs(body@)->Ok_0,
        r is Err ==> r->Err_0 == spec_decode_logs(body@)->Err_0,
{
    let records = match parse_record_array_doc(body) {
        None => {
            return Err(DecodeReason::MalformedBody);
        },
        Some(x) => x,
    };
    let ghost rv = records_view(records@);
    let mut out: Vec<Log> = Vec::new();
    let mut i: usize = 0;
    proof {
        assert(rv.skip(0) =~= rv);
    }
    while i < records.len()
        invariant
            i <= records@.len(),
            rv == records_view(records@),
            spec_record_array_doc(body@) == Some(rv),
            match spec_logs_of(rv.skip(i as int)) {
                Err(e) => spec_logs_of(rv) == Err::<Seq<LogRep>, DecodeReason>(e),
                Ok(rest) => spec_logs_of(rv) == Ok::<Seq<LogRep>, DecodeReason>(
                    logs_view(out@) + rest,
                ),
            },
        decreases records@.len() - i,
    {
        proof {
            assert(rv.skip(i as int)[0] == rv[i as int]);
            assert(rv[i as int] == fields_view(records@[i as int]@));
        }
        match log_from_fields(&records[i]) {
            Err(e) => {
                return Err(e);
            },
            Ok(t) => {
                let ghost out0 = logs_view(out@);
                let ghost trep = t@;
                out.push(t);
                proof {
                    assert(logs_view(out@) =~= out0 + seq![trep]);
                    assert(rv.skip(i as int).drop_first() =~= rv.skip(i + 1));
                    if spec_logs_of(rv.skip(i + 1)) is Ok {
                        let rest2 = spec_logs_of(rv.skip(i + 1))->Ok_0;
                        assert((out0 + seq![trep]) + rest2 =~= out0 + (seq![trep] + rest2));
                    }
                }
                i += 1;
            },
        }
    }
    proof {
        assert(rv.skip(i as int) =~= Seq::<FieldsRep>::empty());
        assert(logs_view(out@) + Seq::<LogRep>::empty() =~= logs_view(out@));
    }
    Ok(out)
}

/// What a transfer-statistics body decodes to.
pub open spec fn spec_decode_transfer_info(s: Seq<u8>) -> Result<TransferInfoRep, DecodeReason> {
    match spec_object_doc(s) {
        None => Err(DecodeReason::MalformedBody),
        Some(fs) => spec_transfer_info_from(fs),
    }
}

/// Decodes a transfer-statistics body.
pub fn decode_transfer_info(body: &Vec<u8>) -> (r: Result<TransferInfo, DecodeReason>)
    ensures
        r is Ok <==> spec_decode_transfer_info(body@) is Ok,
        r is Ok ==> (r->Ok_0)@ == spec_decode_transfer_info(body@)->Ok_0,
        r is Err ==> r->Err_0 == spec_decode_transfer_info(body@)->Err_0,
{
    match parse_object_doc(body) {
        None => Err(DecodeReason::MalformedBody),
        Some(fs) => transfer_info_from_fields(&fs),
    }
}

/// What a build-information body decodes to.
pub open spec fn spec_decode_build_info(s: Seq<u8>) -> Result<BuildInfoRep, DecodeReason> {
    match spec_object_doc(s) {
        None => Err(DecodeReason::MalformedBody),
        Some(fs) => spec_build_info_from(fs),
    }
}

/// Decodes a build-information body.
pub fn decode_build_info(body: &Vec<u8>) -> (r: Result<BuildInfo, DecodeReason>)
    ensures
        r is Ok <==> spec_decode_build_info(body@) is Ok,
        r is Ok ==> (r->Ok_0)@ == spec_decode_build_info(body@)->Ok_0,
        r is Err ==> r->Err_0 == spec_decode_build_info(body@)->Err_0,
{
    match parse_object_doc(body) {
        None => Err(DecodeReason::MalformedBody),
        Some(fs) => build_info_from_fields(&fs),
    }
}

/// The category sequence a vector of named category records stands for.
pub open spec fn categories_list_view(cs: Seq<(String, Categories)>) -> Seq<
    (Seq<char>, CategoriesRep),
> {
    cs.map_values(|p: (String, Categories)| (p.0@, p.1@))
}

/// The category map of a member sequence, in server order, keys as given,
/// or the first failing member's error.
pub open spec fn spec_categories_of(ms: Seq<(Seq<u8>, FieldsRep)>) -> Result<
    Seq<(Seq<char>, CategoriesRep)>,
    DecodeReason,
>
    decreases ms.len(),
{
    if ms.len() == 0 {
        Ok(Seq::empty())
    } else if !valid_utf8(ms[0].0) {
        Err(DecodeReason::InvalidUtf8)
    } else {
        match spec_categories_entry_from(ms[0].1) {
            Err(e) => Err(e),
            Ok(c) => match spec_categories_of(ms.drop_first()) {
                Err(e) => Err(e),
                Ok(rest) => Ok(seq![(decode_utf8(ms[0].0), c)] + rest),
            },
        }
    }
}

/// What a category-map body decodes to: one entry per member of the outer
/// object, in server order; key order is irrelevant to callers and no
/// deduplication is performed.
pub open spec fn spec_decode_categories(s: Seq<u8>) -> Result<
    Seq<(Seq<char>, CategoriesRep)>,
    DecodeReason,
> {
    match spec_objmap_doc(s) {
        None => Err(DecodeReason::MalformedBody),
        Some(ms) => spec_categories_of(ms),
    }
}

/// The decoded category list carries exactly the body's member keys, in
/// the body's order: entry `i` of the result is keyed by the decoded key
/// of member `i`.  Keys are therefore unique whenever the body's object is
/// a well-formed map with distinct keys, which is what the remote service
/// sends; a body with repeated keys is kept as given, with no
/// deduplication.
pub proof fn lemma_categories_keys(ms: Seq<(Seq<u8>, FieldsRep)>)
    requires
        spec_categories_of(ms) is Ok,
    ensures
        spec_categories_of(ms)->Ok_0.len() == ms.len(),
        forall|i: int|
            0 <= i < ms.len() ==> (#[trigger] spec_categories_of(ms)->Ok_0[i]).0 == decode_utf8(
                ms[i].0,
            ),
    decreases ms.len(),
{
    if ms.len() > 0 {
        let t = ms.drop_first();
        lemma_categories_keys(t);
        let r = spec_categories_of(ms)->Ok_0;
        let rest = spec_categories_of(t)->Ok_0;
        assert(r == seq![(decode_utf8(ms[0].0), spec_categories_entry_from(ms[0].1)->Ok_0)]
            + rest);
        assert forall|i: int| 0 <= i < ms.len() implies (#[trigger] r[i]).0 == decode_utf8(
            ms[i].0,
        ) by {
            if i > 0 {
                assert(r[i] == rest[i - 1]);
                assert(t[i - 1] == ms[i]);
            }
        }
    }
}

/// Decodes a category-map body.
pub fn decode_categories(body: &Vec<u8>) -> (r: Result<Vec<(String, Categories)>, DecodeReason>)
    ensures
        r is Ok <==> spec_decode_categories(body@) is Ok,
        r is Ok ==> categories_list_view((r->Ok_0)@) == spec_decode_categories(body@)->Ok_0,
        r is Err ==> r->Err_0 == spec_decode_categories(body@)->Err_0,
{
    let members = match parse_objmap_doc(body) {
        None => {
            return Err(DecodeReason::MalformedBody);
        },
        Some(x) => x,
    };
    let ghost mv = crate::json::objmap_view(members@);
    let mut out: Vec<(String, Categories)> = Vec::new();
    let mut i: usize = 0;
    proof {
        assert(mv.skip(0) =~= mv);
    }
    while i < members.len()
        invariant
            i <= members@.len(),
            mv == crate::json::objmap_view(members@),
            spec_objmap_doc(body@) == Some(mv),
            match spec_categories_of(mv.skip(i as int)) {
                Err(e) => spec_categories_of(mv) == Err::<
                    Seq<(Seq<char>, CategoriesRep)>,
                    DecodeReason,
                >(e),
                Ok(rest) => spec_categories_of(mv) == Ok::<
                    Seq<(Seq<char>, CategoriesRep)>,
                    DecodeReason,
                >(categories_list_view(out@) + rest),
            },
        decreases members@.len() - i,
    {
        let p = &members[i];
        proof {
            assert(mv.skip(i as int)[0] == mv[i as int]);
            assert(mv[i as int] == (members@[i as int].0@, fields_view(members@[i as int].1@)));
        }
        let kb = copy_range(&p.0, 0, p.0.len());
        proof {
            assert(p.0@.subrange(0, p.0@.len() as int) =~= p.0@);
        }
        let key = match crate::strutil::string_from_utf8(kb) {
            None => {
                return Err(DecodeReason::InvalidUtf8);
            },
            Some(k) => k,
        };
        match categories_entry_from_fields(&p.1) {
            Err(e) => {
                return Err(e);
            },
            Ok(c) => {
                let ghost out0 = categories_list_view(out@);
                let ghost pair = (key@, c@);
                out.push((key, c));
                proof {
                    assert(categories_list_view(out@) =~= out0 + seq![pair]);
                    assert(mv.skip(i as int).drop_first() =~= mv.skip(i + 1));
                    if spec_categories_of(mv.skip(i + 1)) is Ok {
                        let rest2 = spec_categories_of(mv.skip(i + 1))->Ok_0;
                        assert((out0 + seq![pair]) + rest2 =~= out0 + (seq![pair] + rest2));
                    }
                }
                i += 1;
            },
        }
    }
    proof {
        assert(mv.skip(i as int) =~= Seq::<(Seq<u8>, FieldsRep)>::empty());
        assert(categories_list_view(out@) + Seq::<(Seq<char>, CategoriesRep)>::empty()
            =~= categories_list_view(out@));
    }
    Ok(out)
}

/// What a speed-limits-mode body decodes to: the literal `1` means the
/// alternate limits are in force, the literal `0` that they are not, and
/// any other body is malformed.
pub open spec fn spec_decode_alternate_limits(s: Seq<u8>) -> Result<
    AlternateLimits,
    DecodeReason,
> {
    if s == "1".spec_bytes() {
        Ok(AlternateLimits::Enabled)
    } else if s == "0".spec_bytes() {
        Ok(AlternateLimits::Disabled)
    } else {
        Err(DecodeReason::MalformedBody)
    }
}

/// Decodes a speed-limits-mode body.
pub fn decode_alternate_limits(body: &Vec<u8>) -> (r: Result<AlternateLimits, DecodeReason>)
    ensures
        r == spec_decode_alternate_limits(body@),
{
    if bytes_eq_str(body, "1") {
        Ok(AlternateLimits::Enabled)
    } else if bytes_eq_str(body, "0") {
        Ok(AlternateLimits::Disabled)
    } else {
        Err(DecodeReason::MalformedBody)
    }
}

} // verus!
