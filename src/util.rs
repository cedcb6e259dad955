use vstd::prelude::*;

verus! {

/// Milliseconds since the epoch as the server counts them, kept apart from local times.
#[derive(Debug, Copy, Clone, PartialEq, Eq, Structural, Default)]
pub struct ServerTimestamp(pub i64);

impl ServerTimestamp {
    /// The milliseconds from `other` to `self`, or `None` when `other` is later.
    pub fn duration_since(self, other: ServerTimestamp) -> (r: Option<u64>)
        ensures
            r is None <==> self.0 < other.0,
            r matches Some(d) ==> d == self.0 - other.0,
    {
        if self.0 < other.0 {
            None
        } else {
            Some((self.0 as i128 - other.0 as i128) as u64)
        }
    }

    /// The milliseconds of the timestamp.
    pub fn as_millis(self) -> (r: i64)
        ensures
            r == self.0,
    {
        self.0
    }
}

/// Whole milliseconds in a span of `secs` seconds and `subsec_nanos` nanoseconds.
pub fn duration_ms_i64(secs: u64, subsec_nanos: u32) -> (r: i64)
    requires
        secs * 1000 + subsec_nanos / 1_000_000 <= i64::MAX,
    ensures
        r == secs * 1000 + subsec_nanos / 1_000_000,
{
    (secs as i64) * 1000 + (subsec_nanos as i64) / 1_000_000
}

/// Milliseconds since the epoch of a point in time given as its span since the epoch
/// (seconds, nanoseconds), `None` for a point before the epoch, which counts as zero.
pub fn system_time_ms_i64(since_epoch: Option<(u64, u32)>) -> (r: i64)
    requires
        since_epoch matches Some((s, n)) ==> s * 1000 + n / 1_000_000 <= i64::MAX,
    ensures
        r == match since_epoch {
            Some((s, n)) => s * 1000 + n / 1_000_000,
            None => 0int,
        },
{
    match since_epoch {
        Some((s, n)) => duration_ms_i64(s, n),
        None => 0,
    }
}

/// The age of an event at `then` seen at `now`, never below zero.
pub open spec fn age(now: i64, then: i64) -> int {
    if now >= then {
        now - then
    } else {
        0
    }
}

pub fn age_ms(now: i64, then: i64) -> (r: i128)
    ensures
        r == age(now, then),
{
    if now >= then {
        now as i128 - then as i128
    } else {
        0
    }
}

/// What the URL standard's parser makes of a text: `None` where it is no URL or has no
/// host, else the host and the port written in it (a scheme's default port is not).
pub uninterp spec fn url_host_and_port(s: Seq<char>) -> Option<(Seq<char>, Option<u16>)>;

/// Relies on `url::Url::parse`, `Url::host_str` and `Url::port`: the host and the
/// explicit port of the parsed URL, `None` when parsing fails or there is no host.
#[verifier::external_body]
fn parse_host_port(s: &str) -> (r: Option<(String, Option<u16>)>)
    ensures
        match r {
            Some((h, p)) => url_host_and_port(s@) == Some((h@, p)),
            None => url_host_and_port(s@) is None,
        },
{
    let url = url::Url::parse(s).ok()?;
    let host = url.host_str()?;
    Some((host.to_string(), url.port()))
}

pub open spec fn digit_char(d: nat) -> char {
    if d == 0 {
        '0'
    } else if d == 1 {
        '1'
    } else if d == 2 {
        '2'
    } else if d == 3 {
        '3'
    } else if d == 4 {
        '4'
    } else if d == 5 {
        '5'
    } else if d == 6 {
        '6'
    } else if d == 7 {
        '7'
    } else if d == 8 {
        '8'
    } else {
        '9'
    }
}

/// The decimal digits of `n`, without leading zeros.
pub open spec fn decimal(n: nat) -> Seq<char>
    decreases n,
{
    if n < 10 {
        seq![digit_char(n)]
    } else {
        decimal(n / 10) + seq![digit_char(n % 10)]
    }
}

/// `host`, followed by `:` and the port in decimal where there is one.
pub open spec fn host_port_text(host: Seq<char>, port: Option<u16>) -> Seq<char> {
    match port {
        Some(p) => host + seq![':'] + decimal(p as nat),
        None => host,
    }
}

fn digit_str(d: u16) -> (r: &'static str)
    requires
        d < 10,
    ensures
        r@ == seq![digit_char(d as nat)],
{
    if d == 0 {
        proof { reveal_strlit("0"); }
        "0"
    } else if d == 1 {
        proof { reveal_strlit("1"); }
        "1"
    } else if d == 2 {
        proof { reveal_strlit("2"); }
        "2"
    } else if d == 3 {
        proof { reveal_strlit("3"); }
        "3"
    } else if d == 4 {
        proof { reveal_strlit("4"); }
        "4"
    } else if d == 5 {
        proof { reveal_strlit("5"); }
        "5"
    } else if d == 6 {
        proof { reveal_strlit("6"); }
        "6"
    } else if d == 7 {
        proof { reveal_strlit("7"); }
        "7"
    } else if d == 8 {
        proof { reveal_strlit("8"); }
        "8"
    } else {
        proof { reveal_strlit("9"); }
        "9"
    }
}

fn append_decimal(s: &mut String, n: u16)
    ensures
        final(s)@ == old(s)@ + decimal(n as nat),
    decreases n,
{
    if n >= 10 {
        append_decimal(s, n / 10);
    }
    s.append(digit_str(n % 10));
    assert(final(s)@ == old(s)@ + decimal(n as nat));
}

/// Writes a host and an optional port as `host` or `host:port`.
pub fn format_host_port(host: &str, port: Option<u16>) -> (r: String)
    ensures
        r@ == host_port_text(host@, port),
{
    let mut s = String::from_str(host);
    if let Some(p) = port {
        proof { reveal_strlit(":"); }
        s.append(":");
        append_decimal(&mut s, p);
    }
    s
}

/// The `host` or `host:port` of a URL, `None` where it cannot be parsed or has no host.
pub fn url_host_port(url_str: &str) -> (r: Option<String>)
    ensures
        match url_host_and_port(url_str@) {
            Some((h, p)) => r is Some && r.unwrap()@ == host_port_text(h, p),
            None => r is None,
        },
{
    match parse_host_port(url_str) {
        Some((host, port)) => Some(format_host_port(host.as_str(), port)),
        None => None,
    }
}

/// A guid the sync server accepts: 1 to 64 printable ASCII characters, none a comma.
pub open spec fn valid_sync_guid(g: Seq<char>) -> bool {
    &&& 0 < g.len() <= 64
    &&& forall|i: int| 0 <= i < g.len() ==> ' ' <= #[trigger] g[i] <= '~' && g[i] != ','
}

pub fn is_valid_for_sync_server(guid: &str) -> (r: bool)
    ensures
        r == valid_sync_guid(guid@),
{
    let n = guid.unicode_len();
    if n == 0 || n > 64 {
        return false;
    }
    let mut i: usize = 0;
    while i < n
        invariant
            n == guid@.len(),
            0 <= i <= n,
            forall|j: int| 0 <= j < i ==> ' ' <= #[trigger] guid@[j] <= '~' && guid@[j] != ',',
        decreases n - i,
    {
        let c = guid.get_char(i);
        if c < ' ' || c > '~' || c == ',' {
            return false;
        }
        i = i + 1;
    }
    true
}

/// `needle` occurs in `hay` at some position.
pub open spec fn contains_text(hay: Seq<char>, needle: Seq<char>) -> bool {
    exists|i: int| 0 <= i && i + needle.len() <= hay.len() && #[trigger] hay.subrange(i, i + needle.len()) == needle
}

fn matches_at(hay: &str, needle: &str, i: usize, hn: usize, nn: usize) -> (r: bool)
    requires
        hn == hay@.len(),
        nn == needle@.len(),
        i + nn <= hn,
    ensures
        r == (hay@.subrange(i as int, i + nn) == needle@),
{
    let mut k: usize = 0;
    while k < nn
        invariant
            hn == hay@.len(),
            nn == needle@.len(),
            i + nn <= hn,
            0 <= k <= nn,
            forall|j: int| 0 <= j < k ==> #[trigger] hay@[i + j] == needle@[j],
        decreases nn - k,
    {
        if hay.get_char(i + k) != needle.get_char(k) {
            assert(hay@.subrange(i as int, i + nn)[k as int] != needle@[k as int]);
            return false;
        }
        k = k + 1;
    }
    assert forall|j: int| 0 <= j < nn implies #[trigger] hay@.subrange(i as int, i + nn)[j]
        == needle@[j] by {
        assert(hay@[i + j] == needle@[j]);
    }
    assert(hay@.subrange(i as int, i + nn) =~= needle@);
    true
}

/// Whether `needle` occurs in `hay`.
pub fn find_text(hay: &str, needle: &str) -> (r: bool)
    ensures
        r == contains_text(hay@, needle@),
{
    let hn = hay.unicode_len();
    let nn = needle.unicode_len();
    if nn > hn {
        return false;
    }
    if nn == 0 {
        assert(hay@.subrange(0int, 0int + needle@.len()) =~= needle@);
        return true;
    }
    let mut i: usize = 0;
    while i <= hn - nn
        invariant
            hn == hay@.len(),
            nn == needle@.len(),
            0 < nn <= hn,
            0 <= i <= hn - nn + 1,
            forall|j: int| 0 <= j < i ==> #[trigger] hay@.subrange(j, j + nn) != needle@,
        decreases hn - nn + 1 - i,
    {
        if matches_at(hay, needle, i, hn, nn) {
            return true;
        }
        i = i + 1;
    }
    assert(!contains_text(hay@, needle@)) by {
        if contains_text(hay@, needle@) {
            let j = choose|j: int|
                0 <= j && j + needle@.len() <= hay@.len() && #[trigger] hay@.subrange(j, j + needle@.len())
                    == needle@;
            assert(j < i);
        }
    }
    false
}

} // verus!
