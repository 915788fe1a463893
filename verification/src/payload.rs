//! The JSON document that the uplink posts: one object under `"payload"`
//! that holds only the readings that arrived since the last post.
use crate::sensor_data::DhtData;
use crate::text::{
    body_new, body_push_str, body_text, decimal, fields_as_str, fields_new, fields_push_str,
    fields_text, fields_write_decimal, lemma_decimal_len, pow10,
};
use vstd::prelude::*;
use vstd::string::StringSliceAdditionalSpecFns;

verus! {

/// Bytes of the separator between two fields.
pub open spec fn comma() -> Seq<u8> {
    ",".spec_bytes()
}

/// The `"temperature":T,"humidity":H` entry of a DHT11 reading.
pub open spec fn dht_entry(d: DhtData) -> Seq<u8> {
    "\"temperature\":".spec_bytes() + decimal(d.temperature as nat) + ",\"humidity\":".spec_bytes()
        + decimal(d.humidity as nat)
}

/// The `"light":L` entry of a photoresistor reading.
pub open spec fn light_entry(l: u16) -> Seq<u8> {
    "\"light\":".spec_bytes() + decimal(l as nat)
}

/// The `"distance_cm":D` entry of a distance reading.
pub open spec fn distance_entry(d: u32) -> Seq<u8> {
    "\"distance_cm\":".spec_bytes() + decimal(d as nat)
}

/// The entries of the readings that are present, in the fixed order
/// DHT11, light, distance.
pub open spec fn entries(dht: Option<DhtData>, light: Option<u16>, distance_cm: Option<u32>) -> Seq<
    Seq<u8>,
> {
    let a: Seq<Seq<u8>> = match dht {
        Some(d) => seq![dht_entry(d)],
        None => seq![],
    };
    let b: Seq<Seq<u8>> = match light {
        Some(l) => seq![light_entry(l)],
        None => seq![],
    };
    let c: Seq<Seq<u8>> = match distance_cm {
        Some(x) => seq![distance_entry(x)],
        None => seq![],
    };
    a + b + c
}

/// The entries joined with commas.
pub open spec fn join_commas(s: Seq<Seq<u8>>) -> Seq<u8>
    decreases s.len(),
{
    if s.len() == 0 {
        Seq::empty()
    } else if s.len() == 1 {
        s[0]
    } else {
        join_commas(s.drop_last()) + comma() + s.last()
    }
}

/// The inside of the payload object for the given readings.
pub open spec fn fields_spec(dht: Option<DhtData>, light: Option<u16>, distance_cm: Option<u32>) -> Seq<u8> {
    join_commas(entries(dht, light, distance_cm))
}

/// The posted document around the given inside: `{"payload":{` inside `}}`.
pub open spec fn body_spec(fields: Seq<u8>) -> Seq<u8> {
    "{\"payload\":{".spec_bytes() + fields + "}}".spec_bytes()
}

proof fn lemma_join_push(s: Seq<Seq<u8>>, x: Seq<u8>)
    ensures
        join_commas(s.push(x)) == if s.len() == 0 {
            x
        } else {
            join_commas(s) + comma() + x
        },
{
    assert(s.push(x).drop_last() == s);
}

proof fn lemma_literal_lengths()
    ensures
        ",".spec_bytes().len() == 1,
        "\"temperature\":".spec_bytes().len() == 14,
        ",\"humidity\":".spec_bytes().len() == 12,
        "\"light\":".spec_bytes().len() == 8,
        "\"distance_cm\":".spec_bytes().len() == 14,
        "{\"payload\":{".spec_bytes().len() == 12,
        "}}".spec_bytes().len() == 2,
{
    broadcast use vstd::string::is_ascii_spec_bytes;

    reveal_strlit(",");
    reveal_strlit("\"temperature\":");
    reveal_strlit(",\"humidity\":");
    reveal_strlit("\"light\":");
    reveal_strlit("\"distance_cm\":");
    reveal_strlit("{\"payload\":{");
    reveal_strlit("}}");
    assert(vstd::string::is_ascii(","));
    assert(vstd::string::is_ascii("\"temperature\":"));
    assert(vstd::string::is_ascii(",\"humidity\":"));
    assert(vstd::string::is_ascii("\"light\":"));
    assert(vstd::string::is_ascii("\"distance_cm\":"));
    assert(vstd::string::is_ascii("{\"payload\":{"));
    assert(vstd::string::is_ascii("}}"));
}

proof fn lemma_digit_bounds(t: u8, h: u8, l: u16, d: u32)
    ensures
        decimal(t as nat).len() <= 3,
        decimal(h as nat).len() <= 3,
        decimal(l as nat).len() <= 5,
        decimal(d as nat).len() <= 10,
{
    reveal_with_fuel(pow10, 11);
    lemma_decimal_len(t as nat, 3);
    lemma_decimal_len(h as nat, 3);
    lemma_decimal_len(l as nat, 5);
    lemma_decimal_len(d as nat, 10);
}

/// The document has no field exactly when no reading arrived: otherwise it
/// holds at least one entry.
pub proof fn fields_empty_iff_no_readings(
    dht: Option<DhtData>,
    light: Option<u16>,
    distance_cm: Option<u32>,
)
    ensures
        fields_spec(dht, light, distance_cm).len() == 0 <==> (dht is None && light is None
            && distance_cm is None),
{
    lemma_literal_lengths();
    let e = entries(dht, light, distance_cm);
    if e.len() > 0 {
        assert(e.last().len() > 0);
        if e.len() == 1 {
            assert(join_commas(e) == e[0]);
        }
    } else {
        assert(e.len() == 0);
    }
}

/// The fields are the entries of the readings present, in the order DHT11,
/// light, distance, with exactly one comma between two neighbours and none
/// before the first or after the last; each entry is its key, a colon and the
/// reading in decimal.
pub proof fn fields_are_entries_joined_by_commas(
    dht: Option<DhtData>,
    light: Option<u16>,
    distance_cm: Option<u32>,
)
    ensures
        ({
            let c = ",".spec_bytes();
            let dd = match dht {
                Some(d) => "\"temperature\":".spec_bytes() + decimal(d.temperature as nat)
                    + ",\"humidity\":".spec_bytes() + decimal(d.humidity as nat),
                None => Seq::empty(),
            };
            let ll = match light {
                Some(l) => "\"light\":".spec_bytes() + decimal(l as nat),
                None => Seq::empty(),
            };
            let xx = match distance_cm {
                Some(x) => "\"distance_cm\":".spec_bytes() + decimal(x as nat),
                None => Seq::empty(),
            };
            fields_spec(dht, light, distance_cm) == match (dht, light, distance_cm) {
                (None, None, None) => Seq::empty(),
                (Some(_), None, None) => dd,
                (None, Some(_), None) => ll,
                (None, None, Some(_)) => xx,
                (Some(_), Some(_), None) => dd + c + ll,
                (Some(_), None, Some(_)) => dd + c + xx,
                (None, Some(_), Some(_)) => ll + c + xx,
                (Some(_), Some(_), Some(_)) => dd + c + ll + c + xx,
            }
        }),
{
    let e = entries(dht, light, distance_cm);
    reveal_with_fuel(join_commas, 3);
    if e.len() == 2 {
        assert(e.drop_last() =~= seq![e[0]]);
    } else if e.len() == 3 {
        assert(e.drop_last() =~= seq![e[0], e[1]]);
        assert(e.drop_last().drop_last() =~= seq![e[0]]);
    }
    match (dht, light, distance_cm) {
        (Some(d), Some(l), Some(x)) => {
            assert(e =~= seq![dht_entry(d), light_entry(l), distance_entry(x)]);
        },
        (Some(d), Some(l), None) => {
            assert(e =~= seq![dht_entry(d), light_entry(l)]);
        },
        (Some(d), None, Some(x)) => {
            assert(e =~= seq![dht_entry(d), distance_entry(x)]);
        },
        (None, Some(l), Some(x)) => {
            assert(e =~= seq![light_entry(l), distance_entry(x)]);
        },
        (Some(d), None, None) => {
            assert(e =~= seq![dht_entry(d)]);
        },
        (None, Some(l), None) => {
            assert(e =~= seq![light_entry(l)]);
        },
        (None, None, Some(x)) => {
            assert(e =~= seq![distance_entry(x)]);
        },
        (None, None, None) => {
            assert(e =~= Seq::<Seq<u8>>::empty());
        },
    }
}

/// The posted document is the fields inside `{"payload":{` and `}}`: twelve
/// opening bytes, the fields unchanged, and two closing braces.
pub proof fn body_wraps_fields_in_payload_object(fields: Seq<u8>)
    ensures
        body_spec(fields).len() == fields.len() + 14,
        body_spec(fields).take(12) == seq![123u8, 34, 112, 97, 121, 108, 111, 97, 100, 34, 58, 123],
        body_spec(fields).subrange(12, 12 + fields.len() as int) == fields,
        body_spec(fields).skip(12 + fields.len() as int) == seq![125u8, 125],
{
    broadcast use vstd::string::is_ascii_spec_bytes;

    reveal_strlit("{\"payload\":{");
    reveal_strlit("}}");
    assert(vstd::string::is_ascii("{\"payload\":{"));
    assert(vstd::string::is_ascii("}}"));
    let open = "{\"payload\":{".spec_bytes();
    let close = "}}".spec_bytes();
    assert(open =~= seq![123u8, 34, 112, 97, 121, 108, 111, 97, 100, 34, 58, 123]);
    assert(close =~= seq![125u8, 125]);
    let b = body_spec(fields);
    assert(b.take(12) =~= open);
    assert(b.subrange(12, 12 + fields.len() as int) =~= fields);
    assert(b.skip(12 + fields.len() as int) =~= close);
}

/// Writes the fields of the readings that are present, comma separated, in
/// the order DHT11, light, distance. The widest possible result is 71 bytes,
/// so nothing is ever cut off by the 128-byte capacity.
pub fn json_fields(dht: Option<DhtData>, light: Option<u16>, distance_cm: Option<u32>) -> (r:
    heapless::String<128>)
    ensures
        fields_text(r) == fields_spec(dht, light, distance_cm),
        fields_text(r).len() <= 71,
{
    proof {
        lemma_literal_lengths();
    }
    let mut fields = fields_new();
    let mut first = true;
    let ghost mut done: Seq<Seq<u8>> = seq![];
    if let Some(d) = dht {
        proof {
            lemma_digit_bounds(d.temperature, d.humidity, 0, 0);
        }
        let _ = fields_push_str(&mut fields, "\"temperature\":");
        let _ = fields_write_decimal(&mut fields, d.temperature as u64);
        let _ = fields_push_str(&mut fields, ",\"humidity\":");
        let _ = fields_write_decimal(&mut fields, d.humidity as u64);
        first = false;
        proof {
            lemma_join_push(done, dht_entry(d));
            done = done.push(dht_entry(d));
        }
    }
    assert(fields_text(fields) == join_commas(done));
    assert(fields_text(fields).len() <= 32);
    if let Some(l) = light {
        proof {
            lemma_digit_bounds(0, 0, l, 0);
            lemma_join_push(done, light_entry(l));
        }
        if !first {
            let _ = fields_push_str(&mut fields, ",");
        }
        let _ = fields_push_str(&mut fields, "\"light\":");
        let _ = fields_write_decimal(&mut fields, l as u64);
        first = false;
        proof {
            done = done.push(light_entry(l));
        }
    }
    assert(fields_text(fields) == join_commas(done));
    assert(fields_text(fields).len() <= 46);
    if let Some(x) = distance_cm {
        proof {
            lemma_digit_bounds(0, 0, 0, x);
            lemma_join_push(done, distance_entry(x));
        }
        if !first {
            let _ = fields_push_str(&mut fields, ",");
        }
        let _ = fields_push_str(&mut fields, "\"distance_cm\":");
        let _ = fields_write_decimal(&mut fields, x as u64);
        proof {
            done = done.push(distance_entry(x));
        }
    }
    assert(done == entries(dht, light, distance_cm));
    fields
}

/// Wraps the fields in the posted document `{"payload":{...}}`. The fields
/// hold at most 128 bytes, so the document (at most 142 bytes) always fits in
/// its 160 bytes.
pub fn json_body(fields: &heapless::String<128>) -> (r: heapless::String<160>)
    ensures
        body_text(r) == body_spec(fields_text(*fields)),
{
    proof {
        lemma_literal_lengths();
    }
    let inner = fields_as_str(fields);
    let mut body = body_new();
    let _ = body_push_str(&mut body, "{\"payload\":{");
    let _ = body_push_str(&mut body, inner);
    let _ = body_push_str(&mut body, "}}");
    body
}

/// What one uplink tick posts for the readings it took: nothing when no
/// reading arrived, otherwise the document with the fields that did.
pub fn uplink_payload(dht: Option<DhtData>, light: Option<u16>, distance_cm: Option<u32>) -> (r:
    Option<heapless::String<160>>)
    ensures
        (dht is None && light is None && distance_cm is None) <==> r is None,
        r matches Some(b) ==> body_text(b) == body_spec(fields_spec(dht, light, distance_cm)),
{
    if dht.is_none() && light.is_none() && distance_cm.is_none() {
        return None;
    }
    let fields = json_fields(dht, light, distance_cm);
    Some(json_body(&fields))
}

} // verus!
