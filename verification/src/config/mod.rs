use crate::text::{
    all_digits, decimal_value, digit_of, is_digit, parse_bool, parse_u16, spec_parse_bool,
    spec_parse_u16, str_chars, str_eq,
};
use vstd::prelude::*;
use vstd::string::*;

verus! {

/// Where the server listens.
#[derive(Debug, Clone, PartialEq, Eq)]
pub struct ServerConfig {
    pub host: String,
    pub port: u16,
}

/// Whether and where the server records.
#[derive(Debug, Clone, PartialEq, Eq)]
pub struct RecordingConfig {
    pub enabled: bool,
    pub output_dir: String,
}

/// The configuration of the server.
#[derive(Debug, Clone, PartialEq, Eq)]
pub struct Config {
    pub server: ServerConfig,
    pub recording: RecordingConfig,
}

/// The place of the first dot at or after `from`; the length of the text if there is none.
pub open spec fn dot_from(s: Seq<char>, from: int) -> int
    decreases s.len() - from,
{
    if from < 0 || from >= s.len() {
        s.len() as int
    } else if s[from] == '.' {
        from
    } else {
        dot_from(s, from + 1)
    }
}

/// One to three decimal digits that stand for at most 255, without a leading zero before
/// another digit.
pub open spec fn is_octet(s: Seq<char>) -> bool {
    &&& 1 <= s.len() <= 3
    &&& all_digits(s)
    &&& s.len() > 1 ==> s[0] != '0'
    &&& decimal_value(s) <= 255
}

/// The address that a text in dotted decimal form stands for: four octets with a dot between
/// each two.
pub open spec fn spec_parse_ipv4(s: Seq<char>) -> Option<[u8; 4]> {
    let a = dot_from(s, 0);
    let b = dot_from(s, a + 1);
    let c = dot_from(s, b + 1);
    let len = s.len() as int;
    if a < len && b < len && c < len && is_octet(s.subrange(0, a)) && is_octet(
        s.subrange(a + 1, b),
    ) && is_octet(s.subrange(b + 1, c)) && is_octet(s.subrange(c + 1, len)) {
        Some(
            [
                decimal_value(s.subrange(0, a)) as u8,
                decimal_value(s.subrange(a + 1, b)) as u8,
                decimal_value(s.subrange(b + 1, c)) as u8,
                decimal_value(s.subrange(c + 1, len)) as u8,
            ],
        )
    } else {
        None
    }
}

/// The address on which the server listens for a host setting: the address that the setting
/// spells out; the loopback address for `localhost`; and every interface for anything else.
pub open spec fn spec_host_to_ipv4(host: Seq<char>) -> [u8; 4] {
    match spec_parse_ipv4(host) {
        Some(octets) => octets,
        None => if host == "localhost"@ {
            [127u8, 0u8, 0u8, 1u8]
        } else {
            [0u8, 0u8, 0u8, 0u8]
        },
    }
}

fn find_dot(chars: &Vec<char>, from: usize) -> (at: usize)
    requires
        from <= chars.len(),
    ensures
        at == dot_from(chars@, from as int),
        from <= at <= chars.len(),
{
    let mut i: usize = from;
    while i < chars.len()
        invariant
            from <= i <= chars.len(),
            dot_from(chars@, from as int) == dot_from(chars@, i as int),
        decreases chars.len() - i,
    {
        if chars[i] == '.' {
            return i;
        }
        i += 1;
    }
    i
}

fn parse_octet(chars: &Vec<char>, from: usize, to: usize) -> (r: Option<u8>)
    requires
        from <= to <= chars.len(),
    ensures
        match r {
            Some(v) => is_octet(chars@.subrange(from as int, to as int)) && v == decimal_value(
                chars@.subrange(from as int, to as int),
            ),
            None => !is_octet(chars@.subrange(from as int, to as int)),
        },
{
    let ghost part = chars@.subrange(from as int, to as int);
    let n = to - from;
    if n < 1 || n > 3 {
        return None;
    }
    if n > 1 && chars[from] == '0' {
        assert(part[0] == '0');
        return None;
    }
    let mut acc: u32 = 0;
    let mut i: usize = 0;
    assert(part.take(0) =~= Seq::<char>::empty());
    while i < n
        invariant
            i <= n,
            n == to - from,
            n <= 3,
            from <= to <= chars.len(),
            part == chars@.subrange(from as int, to as int),
            all_digits(part.take(i as int)),
            acc == decimal_value(part.take(i as int)),
            acc <= 999,
        decreases n - i,
    {
        let c = chars[from + i];
        proof {
            assert(part.take(i + 1).drop_last() =~= part.take(i as int));
            assert(part.take(i + 1).last() == c);
        }
        let d = match digit_of(c) {
            Some(d) => d,
            None => {
                assert(!all_digits(part)) by {
                    assert(part[i as int] == c);
                }
                return None;
            },
        };
        assert(acc <= 99) by {
            lemma_three_digits(part, i as int);
        }
        acc = acc * 10 + d as u32;
        assert(all_digits(part.take(i + 1))) by {
            assert forall|k: int| 0 <= k < i + 1 implies is_digit(#[trigger] part.take(i + 1)[k]) by {
                if k < i {
                    assert(part.take(i as int)[k] == part[k]);
                }
            }
        }
        i += 1;
    }
    assert(part.take(n as int) =~= part);
    if acc > 255 {
        None
    } else {
        Some(acc as u8)
    }
}

/// Fewer than three digits stand for less than a hundred.
proof fn lemma_three_digits(s: Seq<char>, k: int)
    requires
        0 <= k < 3,
        k <= s.len(),
        all_digits(s.take(k)),
    ensures
        decimal_value(s.take(k)) <= 99,
    decreases k,
{
    reveal_with_fuel(decimal_value, 4);
    if k == 0 {
    } else if k == 1 {
        assert(s.take(1).drop_last() =~= Seq::<char>::empty());
        assert(is_digit(s.take(1)[0]));
    } else {
        let t = s.take(2);
        assert(t.drop_last().drop_last() =~= Seq::<char>::empty());
        assert(is_digit(t[0]) && is_digit(t[1]));
        assert(t.drop_last().last() == t[0]);
    }
}

/// Reads an address in dotted decimal form.
pub fn parse_ipv4(host: &str) -> (r: Option<[u8; 4]>)
    ensures
        r == spec_parse_ipv4(host@),
{
    let chars = str_chars(host);
    let len = chars.len();
    let a = find_dot(&chars, 0);
    if a >= len {
        return None;
    }
    let b = find_dot(&chars, a + 1);
    if b >= len {
        return None;
    }
    let c = find_dot(&chars, b + 1);
    if c >= len {
        return None;
    }
    let first = match parse_octet(&chars, 0, a) {
        Some(v) => v,
        None => {
            return None;
        },
    };
    let second = match parse_octet(&chars, a + 1, b) {
        Some(v) => v,
        None => {
            return None;
        },
    };
    let third = match parse_octet(&chars, b + 1, c) {
        Some(v) => v,
        None => {
            return None;
        },
    };
    let fourth = match parse_octet(&chars, c + 1, len) {
        Some(v) => v,
        None => {
            return None;
        },
    };
    let octets: [u8; 4] = [first, second, third, fourth];
    proof {
        let want = spec_parse_ipv4(host@)->0;
        assert(octets@ =~= want@);
    }
    Some(octets)
}

impl Config {
    /// The configuration for the given settings. Where a setting is absent its default holds:
    /// host `0.0.0.0`, port `8080`, recording on, output directory `./recordings`. Recording is
    /// off only for the setting `false`. The port, if given, must be a number of sixteen bits.
    pub fn from_values(
        host: Option<String>,
        port: Option<String>,
        recording_enabled: Option<String>,
        recording_output_dir: Option<String>,
    ) -> (config: Config)
        requires
            port matches Some(p) ==> spec_parse_u16(p@) is Some,
        ensures
            config.server.host@ == (match host {
                Some(h) => h@,
                None => "0.0.0.0"@,
            }),
            config.server.port == (match port {
                Some(p) => spec_parse_u16(p@)->0,
                None => 8080u16,
            }),
            config.recording.enabled == (match recording_enabled {
                Some(e) => spec_parse_bool(e@) != Some(false),
                None => true,
            }),
            config.recording.output_dir@ == (match recording_output_dir {
                Some(d) => d@,
                None => "./recordings"@,
            }),
    {
        let host = match host {
            Some(h) => h,
            None => String::from_str("0.0.0.0"),
        };
        let port: u16 = match port {
            Some(p) => match parse_u16(p.as_str()) {
                Some(v) => v,
                None => 8080,
            },
            None => 8080,
        };
        let enabled = match recording_enabled {
            Some(e) => match parse_bool(e.as_str()) {
                Some(b) => b,
                None => true,
            },
            None => true,
        };
        let output_dir = match recording_output_dir {
            Some(d) => d,
            None => String::from_str("./recordings"),
        };
        Config {
            server: ServerConfig { host, port },
            recording: RecordingConfig { enabled, output_dir },
        }
    }

    /// The address and port on which the server listens.
    pub fn bind_address(&self) -> (addr: ([u8; 4], u16))
        ensures
            addr.0 == spec_host_to_ipv4(self.server.host@),
            addr.1 == self.server.port,
    {
        (self.parse_host_to_ipv4(), self.server.port)
    }

    /// The address on which the server listens.
    pub fn parse_host_to_ipv4(&self) -> (octets: [u8; 4])
        ensures
            octets == spec_host_to_ipv4(self.server.host@),
    {
        match parse_ipv4(self.server.host.as_str()) {
            Some(octets) => octets,
            None => {
                if str_eq(self.server.host.as_str(), "localhost") {
                    [127, 0, 0, 1]
                } else {
                    [0, 0, 0, 0]
                }
            },
        }
    }
}

} // verus!
