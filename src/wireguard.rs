use vstd::prelude::*;
use crate::text::{
    chars_of, decimal, join_lines, lines, parse_u16, parse_u16_at, push_char, decimal_string,
    string_of, trim, slice_is, trim_bounds,
};

verus! {

/// Why a configuration text could not be read.
#[derive(Debug, Clone)]
pub enum WireGuardError {
    /// A mandatory key had no line; the field holds the key's name.
    MissingField(String),
    InvalidFormat,
}

/// A WireGuard tunnel configuration: the local interface and its one peer.
#[derive(Debug, Clone)]
pub struct WireGuardConfig {
    pub private_key: String,
    pub address: String,
    pub dns: String,
    pub peer_public_key: String,
    pub endpoint: String,
    pub allowed_ips: String,
    pub persistent_keepalive: u16,
}

/// The value of a `WireGuardConfig`.
pub struct ConfigModel {
    pub private_key: Seq<char>,
    pub address: Seq<char>,
    pub dns: Seq<char>,
    pub peer_public_key: Seq<char>,
    pub endpoint: Seq<char>,
    pub allowed_ips: Seq<char>,
    pub persistent_keepalive: u16,
}

impl View for WireGuardConfig {
    type V = ConfigModel;

    open spec fn view(&self) -> ConfigModel {
        ConfigModel {
            private_key: self.private_key@,
            address: self.address@,
            dns: self.dns@,
            peer_public_key: self.peer_public_key@,
            endpoint: self.endpoint@,
            allowed_ips: self.allowed_ips@,
            persistent_keepalive: self.persistent_keepalive,
        }
    }
}

/// The keepalive interval, in seconds, when the text gives none that reads.
pub const DEFAULT_KEEPALIVE: u16 = 25;

/// What the scan of a text has found so far: the last value of each key.
pub struct Fields {
    pub private_key: Option<Seq<char>>,
    pub address: Option<Seq<char>>,
    pub dns: Option<Seq<char>>,
    pub peer_public_key: Option<Seq<char>>,
    pub endpoint: Option<Seq<char>>,
    pub allowed_ips: Option<Seq<char>>,
    pub persistent_keepalive: u16,
}

pub open spec fn initial_fields() -> Fields {
    Fields {
        private_key: None,
        address: None,
        dns: None,
        peer_public_key: None,
        endpoint: None,
        allowed_ips: None,
        persistent_keepalive: DEFAULT_KEEPALIVE,
    }
}

/// `e` is the position of the first `'='` in `t`.
pub open spec fn is_first_eq(t: Seq<char>, e: int) -> bool {
    0 <= e < t.len() && t[e] == '=' && forall|j: int| 0 <= j < e ==> t[j] != '='
}

/// The key and value that a line sets, if it sets any: blank lines, section
/// headers and lines without `'='` set nothing.
pub open spec fn entry(line: Seq<char>) -> Option<(Seq<char>, Seq<char>)> {
    let t = trim(line);
    if t.len() == 0 || t[0] == '[' || !(exists|e: int| is_first_eq(t, e)) {
        None
    } else {
        let e = choose|e: int| is_first_eq(t, e);
        Some((trim(t.take(e)), trim(t.skip(e + 1))))
    }
}

/// The keepalive that a `PersistentKeepalive` value gives.
pub open spec fn keepalive_of(v: Seq<char>) -> u16 {
    match parse_u16(v) {
        Some(n) => n,
        None => DEFAULT_KEEPALIVE,
    }
}

/// `f` once key `k` is set to `v`; an unknown key changes nothing.
pub open spec fn assign(f: Fields, k: Seq<char>, v: Seq<char>) -> Fields {
    if k == "PrivateKey"@ {
        Fields { private_key: Some(v), ..f }
    } else if k == "Address"@ {
        Fields { address: Some(v), ..f }
    } else if k == "DNS"@ {
        Fields { dns: Some(v), ..f }
    } else if k == "PublicKey"@ {
        Fields { peer_public_key: Some(v), ..f }
    } else if k == "Endpoint"@ {
        Fields { endpoint: Some(v), ..f }
    } else if k == "AllowedIPs"@ {
        Fields { allowed_ips: Some(v), ..f }
    } else if k == "PersistentKeepalive"@ {
        Fields { persistent_keepalive: keepalive_of(v), ..f }
    } else {
        f
    }
}

pub open spec fn step(f: Fields, line: Seq<char>) -> Fields {
    match entry(line) {
        Some((k, v)) => assign(f, k, v),
        None => f,
    }
}

/// The fields after reading `ls` in order, from `f`.
pub open spec fn scan_from(f: Fields, ls: Seq<Seq<char>>) -> Fields
    decreases ls.len(),
{
    if ls.len() == 0 {
        f
    } else {
        step(scan_from(f, ls.drop_last()), ls.last())
    }
}

pub open spec fn scan(ls: Seq<Seq<char>>) -> Fields {
    scan_from(initial_fields(), ls)
}

/// The configuration that the fields give, or the name of the first
/// mandatory key that is missing.
pub open spec fn finish(f: Fields) -> Result<ConfigModel, Seq<char>> {
    if f.private_key is None {
        Err("PrivateKey"@)
    } else if f.address is None {
        Err("Address"@)
    } else if f.dns is None {
        Err("DNS"@)
    } else if f.peer_public_key is None {
        Err("PublicKey"@)
    } else if f.endpoint is None {
        Err("Endpoint"@)
    } else if f.allowed_ips is None {
        Err("AllowedIPs"@)
    } else {
        Ok(
            ConfigModel {
                private_key: f.private_key->Some_0,
                address: f.address->Some_0,
                dns: f.dns->Some_0,
                peer_public_key: f.peer_public_key->Some_0,
                endpoint: f.endpoint->Some_0,
                allowed_ips: f.allowed_ips->Some_0,
                persistent_keepalive: f.persistent_keepalive,
            },
        )
    }
}

/// What reading the text `s` gives: a configuration, or the name of the
/// missing key.
pub open spec fn parse_model(s: Seq<char>) -> Result<ConfigModel, Seq<char>> {
    finish(scan(lines(s)))
}

/// `r` is what `parse_model` says for the same text.
pub open spec fn parse_agrees(
    r: Result<WireGuardConfig, WireGuardError>,
    m: Result<ConfigModel, Seq<char>>,
) -> bool {
    match m {
        Ok(c) => r is Ok && r->Ok_0@ == c,
        Err(name) => r is Err && r->Err_0 is MissingField && r->Err_0->MissingField_0@ == name,
    }
}

/// The lines that `to_ini` writes for `c`.
pub open spec fn ini_lines(c: ConfigModel) -> Seq<Seq<char>> {
    seq![
        "[Interface]"@,
        "PrivateKey = "@ + c.private_key,
        "Address = "@ + c.address,
        "DNS = "@ + c.dns,
        Seq::empty(),
        "[Peer]"@,
        "PublicKey = "@ + c.peer_public_key,
        "Endpoint = "@ + c.endpoint,
        "AllowedIPs = "@ + c.allowed_ips,
        "PersistentKeepalive = "@ + decimal(c.persistent_keepalive as nat),
    ]
}

pub open spec fn ini_text(c: ConfigModel) -> Seq<char> {
    join_lines(ini_lines(c))
}

/// What the scan holds in executable form.
struct Scan {
    private_key: Option<String>,
    address: Option<String>,
    dns: Option<String>,
    peer_public_key: Option<String>,
    endpoint: Option<String>,
    allowed_ips: Option<String>,
    persistent_keepalive: u16,
}

spec fn opt_view(o: Option<String>) -> Option<Seq<char>> {
    match o {
        Some(s) => Some(s@),
        None => None,
    }
}

impl Scan {
    spec fn fields(&self) -> Fields {
        Fields {
            private_key: opt_view(self.private_key),
            address: opt_view(self.address),
            dns: opt_view(self.dns),
            peer_public_key: opt_view(self.peer_public_key),
            endpoint: opt_view(self.endpoint),
            allowed_ips: opt_view(self.allowed_ips),
            persistent_keepalive: self.persistent_keepalive,
        }
    }
}

pub proof fn lemma_first_eq_unique(t: Seq<char>, e: int)
    requires
        is_first_eq(t, e),
    ensures
        (choose|x: int| is_first_eq(t, x)) == e,
{
    let x = choose|x: int| is_first_eq(t, x);
    assert(is_first_eq(t, x));
    if x < e {
        assert(t[x] != '=');
    } else if e < x {
        assert(t[e] != '=');
    }
}

/// Reads the line `v[from..to]` into the scan.
fn read_line(st: &mut Scan, v: &Vec<char>, from: usize, to: usize)
    requires
        from <= to <= v.len(),
    ensures
        final(st).fields() == step(old(st).fields(), v@.subrange(from as int, to as int)),
{
    let ghost line = v@.subrange(from as int, to as int);
    let (a, b) = trim_bounds(v, from, to);
    let ghost t = v@.subrange(a as int, b as int);
    if a == b || v[a] == '[' {
        return;
    }
    let mut e = a;
    while e < b && v[e] != '='
        invariant
            a <= e <= b <= v.len(),
            forall|j: int| a <= j < e ==> v@[j] != '=',
        decreases b - e,
    {
        e += 1;
    }
    if e == b {
        assert forall|x: int| !is_first_eq(t, x) by {
            if 0 <= x < t.len() {
                assert(t[x] == v@[a + x]);
            }
        }
        return;
    }
    proof {
        assert forall|j: int| 0 <= j < e - a implies t[j] != '=' by {
            assert(t[j] == v@[a + j]);
        }
        assert(is_first_eq(t, e - a));
        lemma_first_eq_unique(t, e - a);
        assert(t.take(e - a) =~= v@.subrange(a as int, e as int));
        assert(t.skip(e - a + 1) =~= v@.subrange(e + 1, b as int));
    }
    let (ka, kb) = trim_bounds(v, a, e);
    let (va, vb) = trim_bounds(v, e + 1, b);
    let ghost val = v@.subrange(va as int, vb as int);
    if slice_is(v, ka, kb, "PrivateKey") {
        st.private_key = Some(string_of(v, va, vb));
    } else if slice_is(v, ka, kb, "Address") {
        st.address = Some(string_of(v, va, vb));
    } else if slice_is(v, ka, kb, "DNS") {
        st.dns = Some(string_of(v, va, vb));
    } else if slice_is(v, ka, kb, "PublicKey") {
        st.peer_public_key = Some(string_of(v, va, vb));
    } else if slice_is(v, ka, kb, "Endpoint") {
        st.endpoint = Some(string_of(v, va, vb));
    } else if slice_is(v, ka, kb, "AllowedIPs") {
        st.allowed_ips = Some(string_of(v, va, vb));
    } else if slice_is(v, ka, kb, "PersistentKeepalive") {
        st.persistent_keepalive = match parse_u16_at(v, va, vb) {
            Some(n) => n,
            None => DEFAULT_KEEPALIVE,
        };
    }
}

/// Appends `label` and `value` as one line.
fn push_line(out: &mut String, label: &str, value: &str)
    ensures
        final(out)@ == old(out)@ + (label@ + value@).push('\n'),
{
    out.append(label);
    out.append(value);
    push_char(out, '\n');
    assert(final(out)@ =~= old(out)@ + (label@ + value@).push('\n'));
}

proof fn lemma_join_push(ls: Seq<Seq<char>>, l: Seq<char>)
    ensures
        join_lines(ls.push(l)) == join_lines(ls) + l.push('\n'),
{
    assert(ls.push(l).drop_last() =~= ls);
}

impl WireGuardConfig {
    /// Reads a configuration in the INI-like text form: `[Section]` headers,
    /// which are ignored, and `Key = Value` lines. The last line of a key
    /// wins; unknown keys are ignored; a `PersistentKeepalive` that does not
    /// read as a `u16` gives the default. Fails on the first of the mandatory
    /// keys, in the order `PrivateKey`, `Address`, `DNS`, `PublicKey`,
    /// `Endpoint`, `AllowedIPs`, that no line sets.
    pub fn parse(config_str: &str) -> (r: Result<WireGuardConfig, WireGuardError>)
        ensures
            parse_agrees(r, parse_model(config_str@)),
    {
        let v = chars_of(config_str);
        let mut st = Scan {
            private_key: None,
            address: None,
            dns: None,
            peer_public_key: None,
            endpoint: None,
            allowed_ips: None,
            persistent_keepalive: DEFAULT_KEEPALIVE,
        };
        let mut start: usize = 0;
        let mut i: usize = 0;
        proof {
            assert(v@.take(0) =~= Seq::<char>::empty());
            assert(lines(v@.take(0)).drop_last() =~= Seq::<Seq<char>>::empty());
            assert(v@.subrange(0, 0) =~= Seq::<char>::empty());
        }
        while i < v.len()
            invariant
                start <= i <= v.len(),
                lines(v@.take(i as int)).len() >= 1,
                lines(v@.take(i as int)).last() == v@.subrange(start as int, i as int),
                st.fields() == scan(lines(v@.take(i as int)).drop_last()),
            decreases v.len() - i,
        {
            let ghost ls = lines(v@.take(i as int));
            let ghost next = v@.take(i + 1);
            assert(next.drop_last() =~= v@.take(i as int));
            assert(next.last() == v@[i as int]);
            if v[i] == '\n' {
                read_line(&mut st, &v, start, i);
                start = i + 1;
                proof {
                    assert(lines(next) == ls.push(Seq::empty()));
                    assert(lines(next).drop_last() =~= ls);
                    assert(ls =~= ls.drop_last().push(ls.last()));
                    assert(v@.subrange(start as int, i + 1) =~= Seq::<char>::empty());
                }
            } else {
                proof {
                    assert(lines(next) == ls.update(ls.len() - 1, ls.last().push(v@[i as int])));
                    assert(lines(next).drop_last() =~= ls.drop_last());
                    assert(v@.subrange(start as int, i + 1) =~= v@.subrange(
                        start as int,
                        i as int,
                    ).push(v@[i as int]));
                }
            }
            i += 1;
        }
        read_line(&mut st, &v, start, i);
        proof {
            let ls = lines(v@.take(i as int));
            assert(v@.take(i as int) =~= config_str@);
            assert(ls =~= ls.drop_last().push(ls.last()));
        }
        let private_key = match st.private_key {
            Some(s) => s,
            None => { return Err(WireGuardError::MissingField(String::from_str("PrivateKey"))); },
        };
        let address = match st.address {
            Some(s) => s,
            None => { return Err(WireGuardError::MissingField(String::from_str("Address"))); },
        };
        let dns = match st.dns {
            Some(s) => s,
            None => { return Err(WireGuardError::MissingField(String::from_str("DNS"))); },
        };
        let peer_public_key = match st.peer_public_key {
            Some(s) => s,
            None => { return Err(WireGuardError::MissingField(String::from_str("PublicKey"))); },
        };
        let endpoint = match st.endpoint {
            Some(s) => s,
            None => { return Err(WireGuardError::MissingField(String::from_str("Endpoint"))); },
        };
        let allowed_ips = match st.allowed_ips {
            Some(s) => s,
            None => { return Err(WireGuardError::MissingField(String::from_str("AllowedIPs"))); },
        };
        Ok(
            WireGuardConfig {
                private_key,
                address,
                dns,
                peer_public_key,
                endpoint,
                allowed_ips,
                persistent_keepalive: st.persistent_keepalive,
            },
        )
    }

    /// Writes the configuration in the conventional two-section text form,
    /// one `Key = Value` line per field.
    pub fn to_ini(&self) -> (r: String)
        ensures
            r@ == ini_text(self@),
    {
        let ghost c = self@;
        let ghost ls = ini_lines(c);
        let mut out = String::new();
        let keepalive = decimal_string(self.persistent_keepalive);
        proof {
            reveal_strlit("");
        }
        push_line(&mut out, "[Interface]", "");
        proof {
            assert(("[Interface]"@ + ""@) =~= ls[0]);
            lemma_join_push(ls.take(0), ls[0]);
            assert(ls.take(0).push(ls[0]) =~= ls.take(1));
            assert(join_lines(ls.take(0)) =~= Seq::<char>::empty());
            assert(out@ =~= join_lines(ls.take(1)));
        }
        push_line(&mut out, "PrivateKey = ", self.private_key.as_str());
        proof {
            lemma_join_push(ls.take(1), ls[1]);
            assert(ls.take(1).push(ls[1]) =~= ls.take(2));
        }
        push_line(&mut out, "Address = ", self.address.as_str());
        proof {
            lemma_join_push(ls.take(2), ls[2]);
            assert(ls.take(2).push(ls[2]) =~= ls.take(3));
        }
        push_line(&mut out, "DNS = ", self.dns.as_str());
        proof {
            lemma_join_push(ls.take(3), ls[3]);
            assert(ls.take(3).push(ls[3]) =~= ls.take(4));
        }
        push_line(&mut out, "", "");
        proof {
            assert((""@ + ""@) =~= ls[4]);
            lemma_join_push(ls.take(4), ls[4]);
            assert(ls.take(4).push(ls[4]) =~= ls.take(5));
        }
        push_line(&mut out, "[Peer]", "");
        proof {
            assert(("[Peer]"@ + ""@) =~= ls[5]);
            lemma_join_push(ls.take(5), ls[5]);
            assert(ls.take(5).push(ls[5]) =~= ls.take(6));
        }
        push_line(&mut out, "PublicKey = ", self.peer_public_key.as_str());
        proof {
            lemma_join_push(ls.take(6), ls[6]);
            assert(ls.take(6).push(ls[6]) =~= ls.take(7));
        }
        push_line(&mut out, "Endpoint = ", self.endpoint.as_str());
        proof {
            lemma_join_push(ls.take(7), ls[7]);
            assert(ls.take(7).push(ls[7]) =~= ls.take(8));
        }
        push_line(&mut out, "AllowedIPs = ", self.allowed_ips.as_str());
        proof {
            lemma_join_push(ls.take(8), ls[8]);
            assert(ls.take(8).push(ls[8]) =~= ls.take(9));
        }
        push_line(&mut out, "PersistentKeepalive = ", keepalive.as_str());
        proof {
            lemma_join_push(ls.take(9), ls[9]);
            assert(ls.take(9).push(ls[9]) =~= ls.take(10));
            assert(ls.take(10) =~= ls);
        }
        out
    }
}

} // verus!
