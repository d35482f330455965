//! Scan options, the configuration-file model, and how the two merge.

use vstd::prelude::*;

verus! {

pub const ARW_LOWEST_PORT_NUMBER: u16 = 1;
pub const ARW_TOP_PORT_NUMBER: u16 = 65535;

/// Order in which the port sequence is produced.
#[derive(Debug, Clone, Copy, PartialEq, Eq, Structural)]
pub enum ArwahScanOrder {
    Serial,
    Random,
}

/// Which set of post-scan scripts is requested.
#[derive(Debug, Clone, Copy, PartialEq, Eq, Structural)]
pub enum ArwahScriptsRequired {
    Disabled,
    Default,
    Custom,
}

/// An inclusive port range.  Well-formed ranges have `start <= end`; the
/// parser hands ranges through as written and the scan front end checks them.
#[derive(Debug, Clone, Copy, PartialEq, Eq, Structural)]
pub struct ArwahPortRange {
    pub start: u16,
    pub end: u16,
}

/// The scan subsystem's options, after argument parsing.
#[derive(Debug, Clone)]
pub struct ArwahOpts {
    pub addresses: Vec<String>,
    pub ports: Option<Vec<u16>>,
    pub range: Option<ArwahPortRange>,
    pub no_config: bool,
    pub no_banner: bool,
    pub config_path: Option<String>,
    pub greppable: bool,
    pub accessible: bool,
    pub resolver: Option<String>,
    pub batch_size: u16,
    pub timeout: u32,
    pub tries: u8,
    pub ulimit: Option<u64>,
    pub scan_order: ArwahScanOrder,
    pub scripts: ArwahScriptsRequired,
    pub top: bool,
    pub command: Vec<String>,
    pub exclude_ports: Option<Vec<u16>>,
    pub exclude_addresses: Option<Vec<String>>,
    pub udp: bool,
}

/// The configuration file's fields; every field is optional there.
#[derive(Debug, Clone)]
pub struct ArwahConfig {
    pub addresses: Option<Vec<String>>,
    pub ports: Option<Vec<u16>>,
    pub range: Option<ArwahPortRange>,
    pub greppable: Option<bool>,
    pub accessible: Option<bool>,
    pub batch_size: Option<u16>,
    pub timeout: Option<u32>,
    pub tries: Option<u8>,
    pub ulimit: Option<u64>,
    pub resolver: Option<String>,
    pub scan_order: Option<ArwahScanOrder>,
    pub command: Option<Vec<String>>,
    pub scripts: Option<ArwahScriptsRequired>,
    pub exclude_ports: Option<Vec<u16>>,
    pub exclude_addresses: Option<Vec<String>>,
    pub udp: Option<bool>,
}

/// Deep clone of a string vector.
pub fn arwah_clone_strings(v: &Vec<String>) -> (r: Vec<String>)
    ensures
        r@ == v@,
{
    let mut out: Vec<String> = Vec::new();
    let mut i: usize = 0;
    while i < v.len()
        invariant
            i <= v.len(),
            out@ =~= v@.subrange(0, i as int),
        decreases v.len() - i,
    {
        out.push(v[i].clone());
        i += 1;
    }
    proof {
        assert(out@ =~= v@);
    }
    out
}

/// Deep clone of a port vector.
pub fn arwah_clone_ports(v: &Vec<u16>) -> (r: Vec<u16>)
    ensures
        r@ == v@,
{
    let mut out: Vec<u16> = Vec::new();
    let mut i: usize = 0;
    while i < v.len()
        invariant
            i <= v.len(),
            out@ =~= v@.subrange(0, i as int),
        decreases v.len() - i,
    {
        out.push(v[i]);
        i += 1;
    }
    proof {
        assert(out@ =~= v@);
    }
    out
}

impl ArwahOpts {
    /// Fills the default whole-range port selection when neither an explicit
    /// port list nor a range was given.
    pub fn arwah_apply_default_range(&mut self)
        ensures
            final(self).ports == old(self).ports,
            old(self).ports is None && old(self).range is None ==> final(self).range == Some(
                ArwahPortRange { start: ARW_LOWEST_PORT_NUMBER, end: ARW_TOP_PORT_NUMBER },
            ),
            !(old(self).ports is None && old(self).range is None) ==> final(self).range == old(
                self,
            ).range,
            final(self).addresses == old(self).addresses,
            final(self).batch_size == old(self).batch_size,
            final(self).scan_order == old(self).scan_order,
    {
        if self.ports.is_none() && self.range.is_none() {
            self.range = Some(
                ArwahPortRange { start: ARW_LOWEST_PORT_NUMBER, end: ARW_TOP_PORT_NUMBER },
            );
        }
    }

    /// Merges a configuration file into the options unless `no_config` is set.
    pub fn arwah_merge(&mut self, config: &ArwahConfig)
        ensures
            old(self).no_config ==> *final(self) == *old(self),
            !old(self).no_config ==> spec_merge_required_rel(*old(self), *config, *final(self))
                && spec_merge_optional_rel(*old(self), *config, *final(self))
                && final(self).no_config == old(self).no_config
                && final(self).no_banner == old(self).no_banner
                && final(self).top == old(self).top
                && final(self).config_path == old(self).config_path,
    {
        if !self.no_config {
            self.arwah_merge_required(config);
            self.arwah_merge_optional(config);
        }
    }

    /// Overwrites each required field with the configuration's value where the
    /// configuration carries one.
    pub fn arwah_merge_required(&mut self, config: &ArwahConfig)
        ensures
            spec_merge_required_rel(*old(self), *config, *final(self)),
            spec_untouched_by_required(*old(self), *final(self)),
    {
        self.arwah_merge_required_front(config);
        self.arwah_merge_required_back(config);
    }

    /// First half of the required-field merge.
    #[verifier::spinoff_prover]
    fn arwah_merge_required_front(&mut self, config: &ArwahConfig)
        ensures
            spec_merge_required_front_rel(*old(self), *config, *final(self)),
            final(self).tries == old(self).tries,
            final(self).scan_order == old(self).scan_order,
            final(self).scripts == old(self).scripts,
            final(self).command == old(self).command,
            final(self).udp == old(self).udp,
            spec_untouched_by_required(*old(self), *final(self)),
    {
        if let Some(e) = &config.addresses {
            self.addresses = arwah_clone_strings(e);
        }
        if let Some(e) = &config.greppable {
            self.greppable = *e;
        }
        if let Some(e) = &config.accessible {
            self.accessible = *e;
        }
        if let Some(e) = &config.batch_size {
            self.batch_size = *e;
        }
        if let Some(e) = &config.timeout {
            self.timeout = *e;
        }
    }

    /// Second half of the required-field merge.
    #[verifier::spinoff_prover]
    fn arwah_merge_required_back(&mut self, config: &ArwahConfig)
        ensures
            spec_merge_required_back_rel(*old(self), *config, *final(self)),
            final(self).addresses == old(self).addresses,
            final(self).greppable == old(self).greppable,
            final(self).accessible == old(self).accessible,
            final(self).batch_size == old(self).batch_size,
            final(self).timeout == old(self).timeout,
            spec_untouched_by_required(*old(self), *final(self)),
    {
        if let Some(e) = &config.tries {
            self.tries = *e;
        }
        if let Some(e) = &config.scan_order {
            self.scan_order = *e;
        }
        if let Some(e) = &config.scripts {
            self.scripts = *e;
        }
        if let Some(e) = &config.command {
            self.command = arwah_clone_strings(e);
        }
        if let Some(e) = &config.udp {
            self.udp = *e;
        }
    }

    /// Overwrites each optional field where the configuration carries a value;
    /// an explicit port list is taken only under `--top`.
    pub fn arwah_merge_optional(&mut self, config: &ArwahConfig)
        ensures
            spec_merge_optional_rel(*old(self), *config, *final(self)),
            spec_untouched_by_optional(*old(self), *final(self)),
    {
        if self.top && config.ports.is_some() {
            if let Some(p) = &config.ports {
                self.ports = Some(arwah_clone_ports(p));
            }
        }
        if let Some(e) = &config.range {
            self.range = Some(e.clone());
        }
        if let Some(e) = &config.resolver {
            self.resolver = Some(e.clone());
        }
        if let Some(e) = &config.ulimit {
            self.ulimit = Some(*e);
        }
        if let Some(e) = &config.exclude_ports {
            self.exclude_ports = Some(arwah_clone_ports(e));
        }
        if let Some(e) = &config.exclude_addresses {
            self.exclude_addresses = Some(arwah_clone_strings(e));
        }
    }
}

/// The required-field merge: each listed field is replaced when the
/// configuration holds a value for it, and kept otherwise.
pub open spec fn spec_merge_required_rel(o: ArwahOpts, c: ArwahConfig, n: ArwahOpts) -> bool {
    spec_merge_required_front_rel(o, c, n) && spec_merge_required_back_rel(o, c, n)
}

/// The merge of the first five required fields.
pub open spec fn spec_merge_required_front_rel(o: ArwahOpts, c: ArwahConfig, n: ArwahOpts) -> bool {
    &&& if c.addresses is Some {
        n.addresses@ == c.addresses->0@
    } else {
        n.addresses == o.addresses
    }
    &&& n.greppable == if c.greppable is Some {
        c.greppable->0
    } else {
        o.greppable
    }
    &&& n.accessible == if c.accessible is Some {
        c.accessible->0
    } else {
        o.accessible
    }
    &&& n.batch_size == if c.batch_size is Some {
        c.batch_size->0
    } else {
        o.batch_size
    }
    &&& n.timeout == if c.timeout is Some {
        c.timeout->0
    } else {
        o.timeout
    }
}

/// The merge of the last five required fields.
pub open spec fn spec_merge_required_back_rel(o: ArwahOpts, c: ArwahConfig, n: ArwahOpts) -> bool {
    &&& n.tries == if c.tries is Some {
        c.tries->0
    } else {
        o.tries
    }
    &&& n.scan_order == if c.scan_order is Some {
        c.scan_order->0
    } else {
        o.scan_order
    }
    &&& n.scripts == if c.scripts is Some {
        c.scripts->0
    } else {
        o.scripts
    }
    &&& if c.command is Some {
        n.command@ == c.command->0@
    } else {
        n.command == o.command
    }
    &&& n.udp == if c.udp is Some {
        c.udp->0
    } else {
        o.udp
    }
}

/// The optional-field merge: ports move over only under `--top`; the other
/// listed fields are replaced when the configuration holds a value.
pub open spec fn spec_merge_optional_rel(o: ArwahOpts, c: ArwahConfig, n: ArwahOpts) -> bool {
    &&& if o.top && c.ports is Some {
        n.ports is Some && n.ports->0@ == c.ports->0@
    } else {
        n.ports == o.ports
    }
    &&& n.range == if c.range is Some {
        c.range
    } else {
        o.range
    }
    &&& n.resolver == if c.resolver is Some {
        c.resolver
    } else {
        o.resolver
    }
    &&& n.ulimit == if c.ulimit is Some {
        c.ulimit
    } else {
        o.ulimit
    }
    &&& if c.exclude_ports is Some {
        n.exclude_ports is Some && n.exclude_ports->0@ == c.exclude_ports->0@
    } else {
        n.exclude_ports == o.exclude_ports
    }
    &&& if c.exclude_addresses is Some {
        n.exclude_addresses is Some && n.exclude_addresses->0@ == c.exclude_addresses->0@
    } else {
        n.exclude_addresses == o.exclude_addresses
    }
}

/// The fields the required-field merge never touches.
pub open spec fn spec_untouched_by_required(o: ArwahOpts, n: ArwahOpts) -> bool {
    &&& n.ports == o.ports
    &&& n.range == o.range
    &&& n.resolver == o.resolver
    &&& n.ulimit == o.ulimit
    &&& n.exclude_ports == o.exclude_ports
    &&& n.exclude_addresses == o.exclude_addresses
    &&& n.top == o.top
    &&& n.no_config == o.no_config
    &&& n.no_banner == o.no_banner
    &&& n.config_path == o.config_path
}

/// The fields the optional-field merge never touches.
pub open spec fn spec_untouched_by_optional(o: ArwahOpts, n: ArwahOpts) -> bool {
    &&& n.addresses == o.addresses
    &&& n.greppable == o.greppable
    &&& n.accessible == o.accessible
    &&& n.batch_size == o.batch_size
    &&& n.timeout == o.timeout
    &&& n.tries == o.tries
    &&& n.scan_order == o.scan_order
    &&& n.scripts == o.scripts
    &&& n.command == o.command
    &&& n.udp == o.udp
    &&& n.top == o.top
    &&& n.no_config == o.no_config
    &&& n.no_banner == o.no_banner
    &&& n.config_path == o.config_path
}

impl Default for ArwahOpts {
    fn default() -> (r: Self)
        ensures
            r.addresses@ == Seq::<String>::empty(),
            r.ports is None,
            r.range is None,
            r.greppable == true,
            r.batch_size == 0,
            r.timeout == 0,
            r.tries == 0,
            r.ulimit is None,
            r.command@ == Seq::<String>::empty(),
            r.accessible == false,
            r.resolver is None,
            r.scan_order == ArwahScanOrder::Serial,
            r.no_config == true,
            r.no_banner == false,
            r.top == false,
            r.scripts == ArwahScriptsRequired::Default,
            r.config_path is None,
            r.exclude_ports is None,
            r.exclude_addresses is None,
            r.udp == false,
    {
        ArwahOpts {
            addresses: Vec::new(),
            ports: None,
            range: None,
            greppable: true,
            batch_size: 0,
            timeout: 0,
            tries: 0,
            ulimit: None,
            command: Vec::new(),
            accessible: false,
            resolver: None,
            scan_order: ArwahScanOrder::Serial,
            no_config: true,
            no_banner: false,
            top: false,
            scripts: ArwahScriptsRequired::Default,
            config_path: None,
            exclude_ports: None,
            exclude_addresses: None,
            udp: false,
        }
    }
}

/// True when every character of `s` is a decimal digit and there is at least
/// one.
pub open spec fn spec_all_digits(s: Seq<char>) -> bool {
    s.len() > 0 && forall|i: int| 0 <= i < s.len() ==> '0' <= #[trigger] s[i] <= '9'
}

/// Numeric value of a digit string, most significant digit first.
pub open spec fn spec_digits_value(s: Seq<char>) -> nat
    decreases s.len(),
{
    if s.len() == 0 {
        0
    } else {
        (spec_digits_value(s.drop_last()) * 10 + (s.last() as int - '0' as int)) as nat
    }
}

/// What `u16` decimal parsing accepts: an optional leading `+`, then decimal
/// digits whose value fits in sixteen bits.
pub open spec fn spec_parse_u16(s: Seq<char>) -> Option<u16> {
    let t = if s.len() > 0 && s[0] == '+' {
        s.skip(1)
    } else {
        s
    };
    if spec_all_digits(t) && spec_digits_value(t) <= 65535 {
        Some(spec_digits_value(t) as u16)
    } else {
        None
    }
}

/// An all-digits-or-plus-prefixed character sequence is ASCII.
proof fn lemma_parseable_is_ascii(s: Seq<char>)
    requires
        spec_parse_u16(s) is Some,
    ensures
        vstd::utf8::is_ascii_chars(s),
{
    let t = if s.len() > 0 && s[0] == '+' {
        s.skip(1)
    } else {
        s
    };
    assert(spec_all_digits(t));
    assert forall|i: int| 0 <= i < s.len() implies '\0' <= #[trigger] s[i] <= '\u{7f}' by {
        if s.len() > 0 && s[0] == '+' {
            if i > 0 {
                assert(t[i - 1] == s[i]);
                assert('0' <= s[i] <= '9');
            } else {
                assert(s[i] == '+');
            }
        } else {
            assert(t[i] == s[i]);
            assert('0' <= s[i] <= '9');
        }
    }
}

/// Decimal `u16` parser over a string slice.
pub fn arwah_parse_u16(s: &str) -> (r: Option<u16>)
    ensures
        r == spec_parse_u16(s@),
{
    if !s.is_ascii() {
        // A non-ASCII character is never a digit nor `+`.
        proof {
            if spec_parse_u16(s@) is Some {
                lemma_parseable_is_ascii(s@);
            }
        }
        return None;
    }
    let bytes = s.as_bytes_vec();
    proof {
        vstd::string::is_ascii_spec_bytes(s);
        assert(bytes@ =~= Seq::new(s@.len(), |i: int| s@[i] as u8));
        assert(bytes@.len() == s@.len());
        assert forall|k: int| 0 <= k < s@.len() implies #[trigger] bytes@[k] == s@[k] as u8 by {}
    }
    let len: usize = bytes.len();
    let mut i: usize = 0;
    if len > 0 && bytes[0] == 43 {
        // a leading '+'
        proof {
            assert(s@[0] as u8 == 43);
            assert('\0' <= s@[0] <= '\u{7f}');
            assert(s@[0] == '+');
        }
        i = 1;
    }
    let ghost t = s@.skip(i as int);
    proof {
        assert(s@.skip(0) =~= s@);
        if i == 0 && s@.len() > 0 {
            assert(s@[0] as u8 != 43 || len == 0);
            assert(s@[0] != '+');
        }
        if spec_parse_u16(s@) is Some {
            assert(t == if s@.len() > 0 && s@[0] == '+' {
                s@.skip(1)
            } else {
                s@
            });
        }
    }
    if i >= len {
        proof {
            assert(t.len() == 0);
            assert(!spec_all_digits(t));
        }
        return None;
    }
    let mut value: u32 = 0;
    let mut j: usize = i;
    while j < len
        invariant
            i <= j <= len,
            len == s@.len(),
            bytes@.len() == s@.len(),
            forall|k: int| 0 <= k < s@.len() ==> #[trigger] bytes@[k] == s@[k] as u8,
            vstd::utf8::is_ascii_chars(s@),
            t == s@.skip(i as int),
            spec_parse_u16(s@) is Some ==> spec_all_digits(t) && spec_digits_value(t) <= 65535,
            spec_all_digits(s@.subrange(i as int, j as int)) || j == i,
            value == spec_digits_value(s@.subrange(i as int, j as int)),
            value <= 65535,
        decreases len - j,
    {
        let c = bytes[j];
        proof {
            assert(s@[j as int] as u8 == c);
            assert('\0' <= s@[j as int] <= '\u{7f}');
        }
        if c < 48 || c > 57 {
            proof {
                assert(!('0' <= s@[j as int] <= '9'));
                assert(t[j - i] == s@[j as int]);
                assert(!spec_all_digits(t));
            }
            return None;
        }
        let d: u32 = (c - 48) as u32;
        let next: u64 = value as u64 * 10 + d as u64;
        if next > 65535 {
            proof {
                assert(s@[j as int] == ((c as u32) as char));
                let p = s@.subrange(i as int, (j + 1) as int);
                assert(p.drop_last() =~= s@.subrange(i as int, j as int));
                assert(p.last() == s@[j as int]);
                assert(spec_digits_value(p) == next);
                if spec_parse_u16(s@) is Some {
                    lemma_digits_value_prefix_le(t, (j + 1 - i) as int);
                    assert(t.take(j + 1 - i) =~= p);
                }
            }
            return None;
        }
        value = next as u32;
        j += 1;
        proof {
            let p = s@.subrange(i as int, j as int);
            assert(p.drop_last() =~= s@.subrange(i as int, j - 1));
            assert(p.last() == s@[j - 1]);
            assert('0' <= p.last() <= '9');
            assert(forall|k: int|
                0 <= k < p.len() - 1 ==> p[k] == #[trigger] s@.subrange(i as int, j - 1)[k]);
        }
    }
    proof {
        assert(t =~= s@.subrange(i as int, len as int));
        assert(spec_all_digits(t));
        assert(spec_digits_value(t) == value);
    }
    Some(value as u16)
}

/// If the whole digit string's value exceeds a bound, so does every prefix
/// extended to it; stated as: a prefix's value never exceeds the whole's.
proof fn lemma_digits_value_prefix_le(s: Seq<char>, n: int)
    requires
        0 <= n <= s.len(),
        spec_all_digits(s) || s.len() == 0,
    ensures
        spec_digits_value(s.take(n)) <= spec_digits_value(s),
    decreases s.len() - n,
{
    if n < s.len() {
        lemma_digits_value_prefix_le(s, n + 1);
        let a = s.take(n);
        let b = s.take(n + 1);
        assert(b.drop_last() =~= a);
        assert(spec_digits_value(b) == spec_digits_value(a) * 10 + (b.last() as nat
            - '0' as nat));
        assert(spec_digits_value(a) <= spec_digits_value(a) * 10) by (nonlinear_arith);
    } else {
        assert(s.take(n) =~= s);
    }
}

/// A position that splits `s` into two parseable port numbers around a `-`.
pub open spec fn spec_range_split_at(s: Seq<char>, i: int) -> bool {
    0 <= i < s.len() && s[i] == '-' && spec_parse_u16(s.take(i)) is Some && spec_parse_u16(
        s.skip(i + 1),
    ) is Some
}

/// What the range argument means: a `-` with a `u16` on each side.  Splitting
/// on every `-` leaves exactly two parts then, each a port number.
pub open spec fn spec_parse_range(s: Seq<char>) -> Option<ArwahPortRange> {
    if exists|i: int| spec_range_split_at(s, i) {
        let i = choose|i: int| spec_range_split_at(s, i);
        Some(
            ArwahPortRange {
                start: spec_parse_u16(s.take(i))->0,
                end: spec_parse_u16(s.skip(i + 1))->0,
            },
        )
    } else {
        None
    }
}

/// A side that parses as a port number holds no `-`, so at most one split
/// position exists.
proof fn lemma_range_split_unique(s: Seq<char>, i1: int, i2: int)
    requires
        spec_range_split_at(s, i1),
        spec_range_split_at(s, i2),
    ensures
        i1 == i2,
{
    if i1 < i2 {
        lemma_range_sides_hold_no_dash(s, i1, i2);
    } else if i2 < i1 {
        lemma_range_sides_hold_no_dash(s, i2, i1);
    }
}

proof fn lemma_range_sides_hold_no_dash(s: Seq<char>, i1: int, i2: int)
    requires
        spec_range_split_at(s, i1),
        0 <= i2 < s.len(),
        i1 < i2,
    ensures
        s[i2] != '-',
{
    let side = s.skip(i1 + 1);
    let k = i2 - i1 - 1;
    let t = if side.len() > 0 && side[0] == '+' {
        side.skip(1)
    } else {
        side
    };
    assert(spec_all_digits(t));
    if side.len() > 0 && side[0] == '+' {
        if k == 0 {
            assert(s[i2] == '+');
        } else {
            assert(t[k - 1] == s[i2]);
            assert('0' <= s[i2] <= '9');
        }
    } else {
        assert(t[k] == s[i2]);
        assert('0' <= s[i2] <= '9');
    }
}

/// The message the range parser reports for every rejected argument.
pub open spec fn spec_range_error_message() -> Seq<char> {
    "[ ETA ]: the range format must be 'start-end'. Example: 1-1000."@
}

/// The fixed complaint the range parser reports.
fn arwah_range_err() -> (e: String)
    ensures
        e@ == spec_range_error_message(),
{
    "[ ETA ]: the range format must be 'start-end'. Example: 1-1000.".to_owned()
}

/// Parses a `start-end` port-range argument.  Returns the range exactly when
/// the argument is one `-` with a port number on each side, and the fixed
/// error message otherwise.
pub fn arwah_parse_range(input: &str) -> (r: Result<ArwahPortRange, String>)
    ensures
        match r {
            Ok(pr) => spec_parse_range(input@) == Some(pr),
            Err(m) => spec_parse_range(input@) is None && m@ == spec_range_error_message(),
        },
{
    if !input.is_ascii() {
        proof {
            if exists|i: int| spec_range_split_at(input@, i) {
                let i = choose|i: int| spec_range_split_at(input@, i);
                lemma_parseable_sides_are_ascii(input@, i);
            }
        }
        return Err(arwah_range_err());
    }
    let bytes = input.as_bytes_vec();
    proof {
        vstd::string::is_ascii_spec_bytes(input);
        assert(bytes@ =~= Seq::new(input@.len(), |i: int| input@[i] as u8));
        assert(bytes@.len() == input@.len());
    }
    let len: usize = bytes.len();
    // find the first dash
    let mut j: usize = 0;
    let mut dash: Option<usize> = None;
    while j < len
        invariant
            j <= len,
            len == input@.len(),
            bytes@.len() == input@.len(),
            forall|k: int| 0 <= k < input@.len() ==> #[trigger] bytes@[k] == input@[k] as u8,
            vstd::utf8::is_ascii_chars(input@),
            input.is_ascii(),
            match dash {
                Some(d) => d < j && input@[d as int] == '-' && forall|k: int|
                    0 <= k < d ==> input@[k] != '-',
                None => forall|k: int| 0 <= k < j ==> input@[k] != '-',
            },
            dash is Some ==> forall|k: int|
                dash->0 < k < j ==> input@[k] != '-',
        decreases len - j,
    {
        proof {
            assert(input@[j as int] as u8 == bytes@[j as int]);
            assert('\0' <= input@[j as int] <= '\u{7f}');
        }
        if bytes[j] == 45 {
            proof {
                assert(input@[j as int] == '-');
            }
            if dash.is_some() {
                // a second dash: more than two parts
                proof {
                    if exists|i: int| spec_range_split_at(input@, i) {
                        let i = choose|i: int| spec_range_split_at(input@, i);
                        let d = dash->0;
                        if i < d {
                            assert(input@[i] == '-');
                        } else if i == d {
                            lemma_range_sides_hold_no_dash(input@, i, j as int);
                        } else {
                            lemma_range_take_holds_no_dash(input@, i, d as int);
                        }
                    }
                }
                return Err(arwah_range_err());
            }
            dash = Some(j);
        }
        j += 1;
    }
    let d = match dash {
        Some(d) => d,
        None => {
            proof {
                if exists|i: int| spec_range_split_at(input@, i) {
                    let i = choose|i: int| spec_range_split_at(input@, i);
                    assert(input@[i] == '-');
                }
            }
            return Err(arwah_range_err());
        },
    };
    let left = input.substring_ascii(0, d);
    let right = input.substring_ascii(d + 1, len);
    proof {
        assert(left@ =~= input@.take(d as int));
        assert(right@ =~= input@.skip(d + 1));
    }
    let start = arwah_parse_u16(left);
    let end = arwah_parse_u16(right);
    match (start, end) {
        (Some(start), Some(end)) => {
            proof {
                assert(spec_range_split_at(input@, d as int));
                let i = choose|i: int| spec_range_split_at(input@, i);
                lemma_range_split_unique(input@, i, d as int);
            }
            Ok(ArwahPortRange { start, end })
        },
        _ => {
            proof {
                if exists|i: int| spec_range_split_at(input@, i) {
                    let i = choose|i: int| spec_range_split_at(input@, i);
                    if i < d {
                        assert(input@[i] == '-');
                    } else if i > d {
                        lemma_range_take_holds_no_dash(input@, i, d as int);
                    }
                }
            }
            Err(arwah_range_err())
        },
    }
}

/// The left side of a successful split holds no dash of its own.
proof fn lemma_range_take_holds_no_dash(s: Seq<char>, i: int, d: int)
    requires
        spec_range_split_at(s, i),
        0 <= d < i,
    ensures
        s[d] != '-',
{
    let side = s.take(i);
    let t = if side.len() > 0 && side[0] == '+' {
        side.skip(1)
    } else {
        side
    };
    assert(spec_all_digits(t));
    if side.len() > 0 && side[0] == '+' {
        if d == 0 {
            assert(s[d] == '+');
        } else {
            assert(t[d - 1] == s[d]);
            assert('0' <= s[d] <= '9');
        }
    } else {
        assert(t[d] == s[d]);
        assert('0' <= s[d] <= '9');
    }
}

/// Both sides of a successful split hold only ASCII characters, and so does
/// the whole argument.
proof fn lemma_parseable_sides_are_ascii(s: Seq<char>, i: int)
    requires
        spec_range_split_at(s, i),
    ensures
        vstd::utf8::is_ascii_chars(s),
{
    assert forall|k: int| 0 <= k < s.len() implies '\0' <= #[trigger] s[k] <= '\u{7f}' by {
        if k == i {
            assert(s[k] == '-');
        } else if k < i {
            let side = s.take(i);
            let t = if side.len() > 0 && side[0] == '+' {
                side.skip(1)
            } else {
                side
            };
            assert(spec_all_digits(t));
            if side.len() > 0 && side[0] == '+' {
                if k == 0 {
                    assert(s[k] == '+');
                } else {
                    assert(t[k - 1] == s[k]);
                    assert('0' <= s[k] <= '9');
                }
            } else {
                assert(t[k] == s[k]);
                assert('0' <= s[k] <= '9');
            }
        } else {
            let side = s.skip(i + 1);
            let t = if side.len() > 0 && side[0] == '+' {
                side.skip(1)
            } else {
                side
            };
            assert(spec_all_digits(t));
            let k2 = k - i - 1;
            if side.len() > 0 && side[0] == '+' {
                if k2 == 0 {
                    assert(s[k] == '+');
                } else {
                    assert(t[k2 - 1] == s[k]);
                    assert('0' <= s[k] <= '9');
                }
            } else {
                assert(t[k2] == s[k]);
                assert('0' <= s[k] <= '9');
            }
        }
    }
}

} // verus!
