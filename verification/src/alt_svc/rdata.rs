//! The wire form of HTTPS DNS records.

use vstd::prelude::*;
use crate::alt_svc::https_records::{bytes_view, HttpsRecord, ServiceRecord, TargetName};
use crate::endpoint::copy_bytes;
use crate::text::push_char;

verus! {

/// The big-endian 16-bit number at `i`.
pub open spec fn be16(s: Seq<u8>, i: int) -> u16 {
    (s[i] * 256 + s[i + 1]) as u16
}

/// Bytes of a name as text, one character each.
pub open spec fn label_text(label: Seq<u8>) -> Seq<char> {
    label.map_values(|b: u8| b as char)
}

/// A name read so far, ready for one more label.
pub open spec fn dotted(name: Seq<char>) -> Seq<char> {
    if name.len() > 0 {
        name.push('.')
    } else {
        name
    }
}

/// The name whose labels follow `name` in `s`, and what comes after it.
pub open spec fn read_name(s: Seq<u8>, name: Seq<char>) -> Option<(Seq<char>, Seq<u8>)>
    decreases s.len(),
{
    if s.len() == 0 {
        None
    } else if s[0] == 0 {
        Some((name, s.skip(1)))
    } else if s[0] > 63 || s.len() < 1 + s[0] {
        None
    } else {
        read_name(s.skip(1 + s[0]), dotted(name) + label_text(s.subrange(1, 1 + s[0])))
    }
}

/// What the parameters of a service record say.
pub struct ParamsView {
    pub mandatory: Seq<u16>,
    pub alpn: Seq<Seq<u8>>,
    pub no_default_alpn: bool,
    pub port: Option<u16>,
    pub ech: Option<Seq<u8>>,
}

/// No parameter.
pub open spec fn no_params() -> ParamsView {
    ParamsView {
        mandatory: Seq::empty(),
        alpn: Seq::empty(),
        no_default_alpn: false,
        port: None,
        ech: None,
    }
}

/// The parameters of a service record.
pub open spec fn params_of(service: ServiceRecord) -> ParamsView {
    ParamsView {
        mandatory: service.mandatory@,
        alpn: service.alpn@.map_values(|id: Vec<u8>| id@),
        no_default_alpn: service.no_default_alpn,
        port: service.port,
        ech: bytes_view(service.ech),
    }
}

/// The keys that a `mandatory` value lists.
pub open spec fn key_list(value: Seq<u8>) -> Seq<u16>
    decreases value.len(),
{
    if value.len() < 2 {
        Seq::empty()
    } else {
        seq![be16(value, 0)] + key_list(value.skip(2))
    }
}

/// The protocols that an `alpn` value lists after `list`: each with its
/// length before it.
pub open spec fn protocol_list(value: Seq<u8>, list: Seq<Seq<u8>>) -> Option<Seq<Seq<u8>>>
    decreases value.len(),
{
    if value.len() == 0 {
        Some(list)
    } else if value[0] == 0 || value.len() < 1 + value[0] {
        None
    } else {
        protocol_list(value.skip(1 + value[0]), list.push(value.subrange(1, 1 + value[0])))
    }
}

/// The parameters after one more; `None` when its value is malformed. Keys
/// without a meaning here are passed over.
pub open spec fn with_param(params: ParamsView, key: u16, value: Seq<u8>) -> Option<ParamsView> {
    if key == 0 {
        if value.len() == 0 || value.len() % 2 != 0 {
            None
        } else {
            Some(ParamsView { mandatory: key_list(value), ..params })
        }
    } else if key == 1 {
        match protocol_list(value, Seq::empty()) {
            Some(list) => if list.len() == 0 {
                None
            } else {
                Some(ParamsView { alpn: list, ..params })
            },
            None => None,
        }
    } else if key == 2 {
        if value.len() != 0 {
            None
        } else {
            Some(ParamsView { no_default_alpn: true, ..params })
        }
    } else if key == 3 {
        if value.len() != 2 {
            None
        } else {
            Some(ParamsView { port: Some(be16(value, 0)), ..params })
        }
    } else if key == 5 {
        Some(ParamsView { ech: Some(value), ..params })
    } else {
        Some(params)
    }
}

/// The parameters in `s` after `params`, whose last key was `last`. Keys
/// stand in ascending order.
pub open spec fn read_params(s: Seq<u8>, last: int, params: ParamsView) -> Option<ParamsView>
    decreases s.len(),
{
    if s.len() == 0 {
        Some(params)
    } else if s.len() < 4 || be16(s, 0) <= last || s.len() < 4 + be16(s, 2) {
        None
    } else {
        match with_param(params, be16(s, 0), s.subrange(4, 4 + be16(s, 2))) {
            Some(next) => read_params(s.skip(4 + be16(s, 2)), be16(s, 0) as int, next),
            None => None,
        }
    }
}

/// Whether a target is the name `text`; the root stands for the owner.
pub open spec fn target_is(target: TargetName, text: Seq<char>) -> bool {
    match target {
        TargetName::Owner => text.len() == 0,
        TargetName::Name(name) => text.len() > 0 && name@ == text,
    }
}

/// Whether `record` is what record data says: a priority of zero makes an
/// alias, whose parameters do not count.
pub open spec fn decodes_to(data: Seq<u8>, record: HttpsRecord) -> bool {
    &&& data.len() >= 2
    &&& read_name(data.skip(2), Seq::empty()) matches Some((name, rest)) && match record {
        HttpsRecord::Alias(target) => be16(data, 0) == 0 && target_is(target, name),
        HttpsRecord::Service(service) => be16(data, 0) > 0 && service.priority == be16(data, 0)
            && target_is(service.target, name) && read_params(rest, -1, no_params()) == Some(
            params_of(service),
        ),
    }
}

/// Whether record data is well formed.
pub open spec fn decodable(data: Seq<u8>) -> bool {
    &&& data.len() >= 2
    &&& read_name(data.skip(2), Seq::empty()) matches Some((name, rest)) && (be16(data, 0) == 0
        || read_params(rest, -1, no_params()) is Some)
}

fn read_be16(data: &[u8], i: usize) -> (r: u16)
    requires
        i + 1 < data@.len(),
    ensures
        r == be16(data@, i as int),
{
    (data[i] as u16) * 256 + data[i + 1] as u16
}

fn parse_keys(data: &[u8], from: usize, to: usize) -> (r: Vec<u16>)
    requires
        from <= to <= data@.len(),
        (to - from) % 2 == 0,
    ensures
        r@ == key_list(data@.subrange(from as int, to as int)),
{
    let ghost whole = data@.subrange(from as int, to as int);
    let mut keys: Vec<u16> = Vec::new();
    let mut i: usize = from;
    assert(keys@ + key_list(data@.subrange(i as int, to as int)) =~= key_list(whole));
    while i < to
        invariant
            from <= i <= to <= data@.len(),
            (to - i) % 2 == 0,
            whole == data@.subrange(from as int, to as int),
            keys@ + key_list(data@.subrange(i as int, to as int)) == key_list(whole),
        decreases to - i,
    {
        let ghost rest = data@.subrange(i as int, to as int);
        let key: u16 = read_be16(data, i);
        assert(key == be16(rest, 0));
        keys.push(key);
        assert(rest.skip(2) =~= data@.subrange(i + 2, to as int));
        i = i + 2;
        assert(keys@ + key_list(data@.subrange(i as int, to as int)) =~= key_list(whole));
    }
    assert(keys@ =~= key_list(whole));
    keys
}

#[verifier::loop_isolation(false)]
fn parse_protocols(data: &[u8], from: usize, to: usize) -> (r: Option<Vec<Vec<u8>>>)
    requires
        from <= to <= data@.len(),
    ensures
        match protocol_list(data@.subrange(from as int, to as int), Seq::empty()) {
            Some(list) => r matches Some(found) && found@.map_values(|id: Vec<u8>| id@) == list,
            None => r is None,
        },
{
    let ghost whole = data@.subrange(from as int, to as int);
    let mut list: Vec<Vec<u8>> = Vec::new();
    let mut i: usize = from;
    assert(list@.map_values(|id: Vec<u8>| id@) =~= Seq::<Seq<u8>>::empty());
    while i < to
        invariant
            from <= i <= to <= data@.len(),
            protocol_list(whole, Seq::empty()) == protocol_list(
                data@.subrange(i as int, to as int),
                list@.map_values(|id: Vec<u8>| id@),
            ),
        decreases to - i,
    {
        let ghost rest = data@.subrange(i as int, to as int);
        let ghost before = list@;
        let n: usize = data[i] as usize;
        assert(n == rest[0]);
        if n == 0 || to - i < 1 + n {
            return None;
        }
        let id = copy_bytes(vstd::slice::slice_subrange(data, i + 1, i + 1 + n));
        assert(id@ =~= rest.subrange(1, 1 + n));
        list.push(id);
        assert(list@.map_values(|id: Vec<u8>| id@) =~= before.map_values(|id: Vec<u8>| id@).push(
            id@,
        ));
        assert(rest.skip(1 + n) =~= data@.subrange(i + 1 + n, to as int));
        i = i + 1 + n;
    }
    Some(list)
}

#[verifier::loop_isolation(false)]
fn parse_name(data: &[u8]) -> (r: Option<(String, usize)>)
    requires
        data@.len() >= 2,
    ensures
        match read_name(data@.skip(2), Seq::empty()) {
            Some((name, rest)) => r matches Some(found) && found.0@ == name && found.1
                <= data@.len() && rest == data@.skip(found.1 as int),
            None => r is None,
        },
{
    let mut name = String::new();
    let mut i: usize = 2;
    loop
        invariant
            2 <= i <= data@.len(),
            read_name(data@.skip(2), Seq::empty()) == read_name(data@.skip(i as int), name@),
        decreases data@.len() - i,
    {
        let ghost rest = data@.skip(i as int);
        let ghost before = name@;
        if i == data.len() {
            return None;
        }
        let n: usize = data[i] as usize;
        assert(n == rest[0]);
        if n == 0 {
            assert(rest.skip(1) =~= data@.skip(i + 1));
            return Some((name, i + 1));
        }
        if n > 63 || data.len() - i < 1 + n {
            return None;
        }
        let ghost label = rest.subrange(1, 1 + n);
        if !name.as_str().is_empty() {
            push_char(&mut name, '.');
        }
        let mut j: usize = 0;
        assert(name@ =~= dotted(before) + label_text(label.take(0)));
        while j < n
            invariant
                j <= n,
                name@ == dotted(before) + label_text(label.take(j as int)),
            decreases n - j,
        {
            push_char(&mut name, data[i + 1 + j] as char);
            assert(label[j as int] == data@[i + 1 + j]);
            assert(label.take(j + 1) =~= label.take(j as int).push(label[j as int]));
            assert(name@ =~= dotted(before) + label_text(label.take(j + 1)));
            j = j + 1;
        }
        assert(label.take(j as int) =~= label);
        assert(rest.skip(1 + n) =~= data@.skip(i + 1 + n));
        i = i + 1 + n;
    }
}

impl HttpsRecord {
    /// Decodes record data; `None` when it is malformed.
    #[verifier::loop_isolation(false)]
    pub fn from_rdata(data: &[u8]) -> (r: Option<HttpsRecord>)
        ensures
            r is Some <==> decodable(data@),
            r matches Some(record) ==> decodes_to(data@, record),
    {
        if data.len() < 2 {
            return None;
        }
        let priority: u16 = read_be16(data, 0);
        let (name, start) = match parse_name(data) {
            Some(found) => found,
            None => return None,
        };
        let target = if name.as_str().is_empty() {
            TargetName::Owner
        } else {
            TargetName::Name(name)
        };
        if priority == 0 {
            return Some(HttpsRecord::Alias(target));
        }
        let mut service = ServiceRecord {
            priority,
            target,
            mandatory: Vec::new(),
            alpn: Vec::new(),
            no_default_alpn: false,
            port: None,
            ech: None,
        };
        let ghost list = data@.skip(start as int);
        let mut last: i32 = -1;
        let mut i: usize = start;
        proof {
            let params = params_of(service);
            assert(params.alpn =~= Seq::<Seq<u8>>::empty());
            assert(params.mandatory =~= Seq::<u16>::empty());
        }
        while i < data.len()
            invariant
                start <= i <= data@.len(),
                -1 <= last <= 65535,
                service.priority == priority,
                service.target == target,
                read_params(list, -1, no_params()) == read_params(
                    data@.skip(i as int),
                    last as int,
                    params_of(service),
                ),
            decreases data@.len() - i,
        {
            let ghost rest = data@.skip(i as int);
            let ghost before = params_of(service);
            if data.len() - i < 4 {
                return None;
            }
            let key: u16 = read_be16(data, i);
            let n: usize = read_be16(data, i + 2) as usize;
            assert(key == be16(rest, 0) && n == be16(rest, 2));
            if key as i32 <= last || data.len() - i < 4 + n {
                return None;
            }
            let from: usize = i + 4;
            let to: usize = i + 4 + n;
            let ghost value = rest.subrange(4, 4 + n);
            assert(value =~= data@.subrange(from as int, to as int));
            if key == 0 {
                if n == 0 || n % 2 != 0 {
                    return None;
                }
                service.mandatory = parse_keys(data, from, to);
            } else if key == 1 {
                match parse_protocols(data, from, to) {
                    Some(found) => {
                        if found.len() == 0 {
                            return None;
                        }
                        service.alpn = found;
                    },
                    None => {
                        return None;
                    },
                }
            } else if key == 2 {
                if n != 0 {
                    return None;
                }
                service.no_default_alpn = true;
            } else if key == 3 {
                if n != 2 {
                    return None;
                }
                let port: u16 = read_be16(data, from);
                assert(port == be16(value, 0));
                service.port = Some(port);
            } else if key == 5 {
                service.ech = Some(copy_bytes(vstd::slice::slice_subrange(data, from, to)));
            }
            proof {
                assert(with_param(before, key, value) == Some(params_of(service)));
                assert(rest.skip(4 + n) =~= data@.skip(to as int));
            }
            last = key as i32;
            i = to;
        }
        Some(HttpsRecord::Service(service))
    }
}

} // verus!
