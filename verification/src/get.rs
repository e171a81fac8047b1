//! The `get` command: what it prints for one key.
//!
//! This is the non-interactive twin of the value inspector: same type-aware
//! reading and automatic decompression, but printed so it can be piped.

use crate::inspect::{offset_of_expiry, offset_then, ttl_text_from, ttl_with_expiry, KeyValue};
use crate::moment::{
    clock_gave, expiry_instant, in_calendar, instant_after, is_fraction, is_offset, now,
    rfc3339_text, write_rfc3339, LAST_SECOND,
};
use crate::report::{format_size, size_text};
use crate::text::{dec, decimal, join, joined, text_of, texts};
use crate::value::{encoding_name, Encoding};
use vstd::prelude::*;

verus! {

/// No truncation for `get`: the user asked for the value, give it all.
pub const GET_CAP: usize = usize::MAX / 2;

/// Options of the `get` command.
#[derive(Debug)]
pub struct GetArgs {
    /// The key to read. The `\x01tags\x01…` escaped form is accepted for tag
    /// sets (the same notation the insights views show).
    pub key: String,
    /// Print the value as a hex dump instead of decoded text.
    pub hex: bool,
    /// Print only the value body. Default when stdout is piped.
    pub raw: bool,
    /// Always print the metadata header, even when piped.
    pub header: bool,
    /// Emit a JSON object with the value and its metadata.
    pub json: bool,
}

/// The parts of the metadata header, with the given text for the TTL.
pub open spec fn header_parts(v: KeyValue, ttl: Seq<char>) -> Seq<Seq<char>> {
    let a = seq!["type="@ + v.redis_type@];
    let b = match v.size_bytes {
        Some(n) => a.push("size="@ + size_text(n)),
        None => a,
    };
    let c = match v.elements {
        Some(n) => b.push("elements="@ + dec(n as nat)),
        None => b,
    };
    let d = c.push("ttl="@ + ttl);
    let e = if v.encoding is Some && v.encoding->0 != Encoding::Plain {
        if v.stream_offset is Some && v.stream_offset->0 > 0 {
            d.push(
                "decompressed="@ + encoding_name(v.encoding->0) + " (embedded @ "@ + dec(
                    v.stream_offset->0 as nat,
                ) + ")"@,
            )
        } else {
            d.push("decompressed="@ + encoding_name(v.encoding->0))
        }
    } else {
        d
    };
    if v.is_binary {
        e.push("binary"@)
    } else {
        e
    }
}

/// The metadata header, with the given text for the TTL.
pub open spec fn header_text(v: KeyValue, ttl: Seq<char>) -> Seq<char> {
    "# "@ + joined(header_parts(v, ttl), "  "@)
}

/// The metadata header, with the given text for the TTL.
pub fn header_with(v: &KeyValue, ttl: &str) -> (r: String)
    ensures
        r@ == header_text(*v, ttl@),
{
    let mut parts: Vec<String> = Vec::new();
    let mut kind = "type=".to_owned();
    kind.append(v.redis_type.as_str());
    parts.push(kind);
    if let Some(n) = v.size_bytes {
        let mut part = "size=".to_owned();
        part.append(format_size(n).as_str());
        parts.push(part);
    }
    if let Some(n) = v.elements {
        let mut part = "elements=".to_owned();
        part.append(decimal(n as u128).as_str());
        parts.push(part);
    }
    let mut part = "ttl=".to_owned();
    part.append(ttl);
    parts.push(part);
    if let Some(enc) = v.encoding {
        if enc != Encoding::Plain {
            let mut part = "decompressed=".to_owned();
            part.append(enc.label());
            if let Some(off) = v.stream_offset {
                if off > 0 {
                    part.append(" (embedded @ ");
                    part.append(decimal(off as u128).as_str());
                    part.append(")");
                }
            }
            parts.push(part);
        }
    }
    if v.is_binary {
        parts.push("binary".to_owned());
    }
    assert(texts(parts@) =~= header_parts(*v, ttl@));
    let mut r = "# ".to_owned();
    r.append(join(&parts, "  ").as_str());
    r
}

/// The metadata header, with the moment at which the key expires.
pub fn header_line(v: &KeyValue) -> (r: String)
    ensures
        exists|now: i64, nanos: u32, offset: i32|
            {
                &&& #[trigger] clock_gave(now, nanos)
                &&& in_calendar(now)
                &&& #[trigger] offset_of_expiry(v.ttl, now, offset)
                &&& r@ == header_text(*v, ttl_text_from(v.ttl, now, offset))
            },
{
    let ttl = ttl_with_expiry(v.ttl);
    header_with(v, ttl.as_str())
}

/// The timestamp at which a key expires whose TTL was read at `now`: one with a
/// positive TTL that runs out within the calendar has one.
pub open spec fn expiry_text(ttl: Option<i64>, now: i64, nanos: u32, offset: i32) -> Option<
    Seq<char>,
> {
    if ttl is Some && ttl->0 > 0 && instant_after(now, ttl->0) is Some {
        Some(rfc3339_text(instant_after(now, ttl->0)->0, nanos, offset))
    } else {
        None
    }
}

/// Absolute expiry timestamp (RFC 3339) for a positive TTL that was read at
/// `now` and `nanos`, where the local time is `offset` seconds ahead of UTC when
/// it runs out, else none.
pub fn expires_from(ttl: Option<i64>, now: i64, nanos: u32, offset: i32) -> (r: Option<String>)
    requires
        in_calendar(now),
        is_fraction(nanos),
        is_offset(offset),
    ensures
        text_of(r) == expiry_text(ttl, now, nanos, offset),
{
    match ttl {
        Some(secs) => if secs > 0 {
            match expiry_instant(now, secs) {
                Some(at) => Some(write_rfc3339(at, nanos, offset)),
                None => None,
            }
        } else {
            None
        },
        None => None,
    }
}

/// Absolute expiry timestamp (RFC 3339) for a positive TTL, else none. It is the
/// clock's reading plus the TTL, in the local offset of that moment; a moment
/// beyond the calendar has no timestamp. How far the calendar reaches from now
/// rests on the clock, and the offset on the machine's time zone.
pub fn expires_at(ttl: Option<i64>) -> (r: Option<String>)
    ensures
        ttl is None || ttl->0 <= 0 ==> r is None,
        ttl is Some && ttl->0 > LAST_SECOND ==> r is None,
        exists|now: i64, nanos: u32, offset: i32|
            {
                &&& #[trigger] clock_gave(now, nanos)
                &&& in_calendar(now)
                &&& is_fraction(nanos)
                &&& #[trigger] offset_of_expiry(ttl, now, offset)
                &&& text_of(r) == expiry_text(ttl, now, nanos, offset)
                &&& r is Some <==> ttl is Some && ttl->0 > 0 && now + ttl->0 <= LAST_SECOND
                &&& r is Some ==> r->0@ == rfc3339_text((now + ttl->0) as i64, nanos, offset)
            },
{
    let (secs, nanos) = now();
    let offset: i32 = offset_then(ttl, secs);
    let r = expires_from(ttl, secs, nanos, offset);
    assert(clock_gave(secs, nanos) && offset_of_expiry(ttl, secs, offset));
    r
}

/// A key has an expiry timestamp exactly if its TTL is positive and runs out
/// within the calendar, and it is that of the moment so many seconds after the
/// reading.
pub proof fn expiry_is_reading_plus_ttl(ttl: Option<i64>, now: i64, nanos: u32, offset: i32)
    requires
        in_calendar(now),
    ensures
        expiry_text(ttl, now, nanos, offset) is Some <==> ttl is Some && ttl->0 > 0 && now + ttl->0
            <= LAST_SECOND,
        expiry_text(ttl, now, nanos, offset) is Some ==> expiry_text(ttl, now, nanos, offset)->0
            == rfc3339_text((now + ttl->0) as i64, nanos, offset),
{
}

/// The fields of the JSON output.
#[derive(Debug)]
pub struct JsonFields {
    pub key: String,
    pub redis_type: String,
    pub ttl: Option<i64>,
    /// Absolute expiry, when the key has a TTL.
    pub expires_at: Option<String>,
    pub size_bytes: Option<u64>,
    pub elements: Option<u64>,
    pub encoding: Option<String>,
    pub embedded_offset: Option<usize>,
    pub is_binary: bool,
    pub value: String,
}

/// The fields of the JSON output, for a key that expires at the given moment.
pub fn json_fields(v: &KeyValue, expires_at: Option<String>) -> (r: JsonFields)
    ensures
        r.key@ == v.key@,
        r.redis_type@ == v.redis_type@,
        r.ttl == v.ttl,
        r.expires_at == expires_at,
        r.size_bytes == v.size_bytes,
        r.elements == v.elements,
        text_of(r.encoding) == (match v.encoding {
            Some(e) => Some(encoding_name(e)),
            None => None,
        }),
        r.embedded_offset == (if v.stream_offset is Some && v.stream_offset->0 > 0 {
            v.stream_offset
        } else {
            None
        }),
        r.is_binary == v.is_binary,
        r.value@ == v.body@,
{
    JsonFields {
        key: v.key.clone(),
        redis_type: v.redis_type.clone(),
        ttl: v.ttl,
        expires_at,
        size_bytes: v.size_bytes,
        elements: v.elements,
        encoding: match v.encoding {
            Some(e) => Some(e.label().to_owned()),
            None => None,
        },
        embedded_offset: match v.stream_offset {
            Some(off) => if off > 0 {
                Some(off)
            } else {
                None
            },
            None => None,
        },
        is_binary: v.is_binary,
        value: v.body.clone(),
    }
}

/// What `get` does with a value.
#[derive(Debug)]
pub enum Outcome {
    /// Fail with this message.
    Fail(String),
    /// Print the JSON object.
    Json,
    /// Print the hex dump as it is.
    Hex { header: bool, text: String },
    /// There is no hex view; say so on stderr.
    NoHex { header: bool, message: String },
    /// Print the text and a line break.
    Text { header: bool, text: String },
}

/// The header is shown unless `raw` is asked for or stdout is piped, so that
/// plain pipelines get just the value; `header` overrides both.
pub open spec fn shows_header(args: GetArgs, on_terminal: bool) -> bool {
    args.header || (!args.raw && on_terminal)
}

/// Decide what `get` prints.
pub fn outcome(args: &GetArgs, v: &KeyValue, on_terminal: bool) -> (r: Outcome)
    ensures
        match r {
            Outcome::Fail(e) => v.error is Some && e@ == v.error->0@,
            Outcome::Json => v.error is None && args.json,
            Outcome::Hex { header, text } => {
                &&& v.error is None && !args.json && args.hex && v.hex is Some
                &&& header == shows_header(*args, on_terminal)
                &&& text@ == v.hex->0@
            },
            Outcome::NoHex { header, message } => {
                &&& v.error is None && !args.json && args.hex && v.hex is None
                &&& header == shows_header(*args, on_terminal)
                &&& message@ == "(no hex view for type "@ + v.redis_type@ + ")"@
            },
            Outcome::Text { header, text } => {
                &&& v.error is None && !args.json && !args.hex
                &&& header == shows_header(*args, on_terminal)
                &&& text@ == v.body@
            },
        },
{
    if let Some(e) = &v.error {
        return Outcome::Fail(e.clone());
    }
    if args.json {
        return Outcome::Json;
    }
    let header = args.header || (!args.raw && on_terminal);
    if args.hex {
        match &v.hex {
            Some(h) => Outcome::Hex { header, text: h.clone() },
            None => {
                let mut message = "(no hex view for type ".to_owned();
                message.append(v.redis_type.as_str());
                message.append(")");
                Outcome::NoHex { header, message }
            },
        }
    } else {
        Outcome::Text { header, text: v.body.clone() }
    }
}

} // verus!
