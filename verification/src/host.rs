//! The decoded shape of a successful lookup and its presenter.
//!
//! A `ShodanHostData` is built fresh from one successful response and
//! discarded after formatting. Fields whose remote shape is variant
//! (the operating-system field, the tag values) are carried as the
//! opaque text they are displayed as; the binary converts the decoded
//! JSON values to that text before handing the record over.

use vstd::prelude::*;
use vstd::string::*;
use vstd::seq_lib::*;
use vstd::relations::{sorted_by, total_ordering};
use vstd::multiset::Multiset;

use crate::text::{int_to_dec, join_ports, join_comma, views_of, i64_to_string, join_ports_exec,
    join_comma_exec};

verus! {

/// Crawler-provenance record nested in one port's detail.
#[derive(Debug, Clone)]
pub struct Shodan {
    pub crawler: String,
    pub id: String,
    pub module: String,
    pub ptr: Option<bool>,
    pub region: String,
}

/// One open port's metadata within a host record. Only the port
/// number, the transport and the product are interpreted; the rest are
/// opaque pass-through fields.
#[derive(Debug, Clone)]
pub struct ShodanPortData {
    pub shodan: Shodan,
    pub cpe: Option<Vec<String>>,
    pub cpe23: Option<Vec<String>>,
    pub data: Option<String>,
    pub domains: Option<Vec<String>>,
    pub hash: i64,
    pub hostname: Option<Vec<String>>,
    pub info: Option<String>,
    pub product: Option<String>,
    pub port: i64,
    pub transport: String,
}

/// The decoded result of a successful lookup. The `os` field and each
/// tag hold the text of a remote value of unspecified shape.
#[derive(Debug, Clone)]
pub struct ShodanHostData {
    pub asn: String,
    pub city: String,
    pub country_code: String,
    pub country_name: String,
    pub data: Vec<ShodanPortData>,
    pub ip: i64,
    pub ip_str: String,
    pub isp: String,
    pub last_update: String,
    pub org: String,
    pub os: String,
    pub ports: Vec<i64>,
    pub region_code: String,
    pub tags: Option<Vec<String>>,
}

/// The list of open ports rearranged in ascending order.
pub open spec fn sorted_ports(s: Seq<i64>) -> Seq<i64> {
    s.sort_by(|x: i64, y: i64| x <= y)
}

proof fn lemma_port_order_total()
    ensures
        total_ordering(|x: i64, y: i64| x <= y),
{
}

/// Ascending order is the one ordering the presenter performs: the
/// sorted list holds exactly the given ports, in ascending order.
pub proof fn lemma_sorted_ports(s: Seq<i64>)
    ensures
        sorted_ports(s).to_multiset() == s.to_multiset(),
        sorted_by(sorted_ports(s), |x: i64, y: i64| x <= y),
        sorted_ports(s).len() == s.len(),
{
    lemma_port_order_total();
    s.lemma_sort_by_ensures(|x: i64, y: i64| x <= y);
    broadcast use group_to_multiset_ensures;

    assert(sorted_ports(s).to_multiset() =~= s.to_multiset());
    assert(sorted_ports(s).to_multiset().len() == s.to_multiset().len());
}

/// Places one port in an ascending list, keeping it ascending.
fn insert_sorted(r: &mut Vec<i64>, x: i64)
    requires
        sorted_by(old(r)@, |x: i64, y: i64| x <= y),
    ensures
        sorted_by(final(r)@, |x: i64, y: i64| x <= y),
        final(r)@.to_multiset() == old(r)@.to_multiset().insert(x),
{
    let mut j: usize = 0;
    while j < r.len() && r[j] <= x
        invariant
            0 <= j <= r@.len(),
            r@ == old(r)@,
            forall|k: int| 0 <= k < j ==> r@[k] <= x,
        decreases r@.len() - j,
    {
        j = j + 1;
    }
    let ghost r0 = r@;
    r.insert(j, x);
    proof {
        assert(r@ =~= r0.take(j as int) + (seq![x] + r0.skip(j as int)));
        assert forall|a: int, b: int| 0 <= a <= b < r@.len() implies r@[a] <= r@[b] by {
            let leq = |x: i64, y: i64| x <= y;
            assert(sorted_by(r0, leq));
            if a == j {
                if b > j {
                    assert(r@[b] == r0[b - 1]);
                    assert(r0[j as int] > x);
                    if b - 1 > j {
                        assert(leq(r0[j as int], r0[b - 1]));
                    }
                }
            } else if a < j && b == j {
                assert(r@[a] == r0[a]);
            } else if a < j && b > j {
                assert(r@[a] == r0[a] && r@[b] == r0[b - 1]);
                if a < b - 1 {
                    assert(leq(r0[a], r0[b - 1]));
                }
            } else if a > j {
                assert(r@[a] == r0[a - 1] && r@[b] == r0[b - 1]);
                if a < b {
                    assert(leq(r0[a - 1], r0[b - 1]));
                }
            } else {
                assert(r@[a] == r0[a] && r@[b] == r0[b]);
                if a < b {
                    assert(leq(r0[a], r0[b]));
                }
            }
        }
        broadcast use group_to_multiset_ensures;

        assert(r0 =~= r0.take(j as int) + r0.skip(j as int));
        lemma_multiset_commutative(r0.take(j as int), r0.skip(j as int));
        lemma_multiset_commutative(r0.take(j as int), seq![x] + r0.skip(j as int));
        lemma_multiset_commutative(seq![x], r0.skip(j as int));
        assert(seq![x] =~= Seq::<i64>::empty().push(x));
        assert(seq![x].to_multiset() =~= Seq::<i64>::empty().to_multiset().insert(x));
        assert(Seq::<i64>::empty().to_multiset() =~= Multiset::<i64>::empty());
        assert(r@.to_multiset() =~= r0.to_multiset().insert(x));
    }
}

/// Sorts the list of open ports in ascending order.
pub fn sort_ports(v: &Vec<i64>) -> (r: Vec<i64>)
    ensures
        r@ == sorted_ports(v@),
{
    let mut r: Vec<i64> = Vec::new();
    let mut i: usize = 0;
    proof {
        broadcast use group_to_multiset_ensures;

        assert(v@.take(0) =~= Seq::<i64>::empty());
        assert(r@.to_multiset() =~= v@.take(0).to_multiset());
    }
    while i < v.len()
        invariant
            0 <= i <= v@.len(),
            sorted_by(r@, |x: i64, y: i64| x <= y),
            r@.to_multiset() == v@.take(i as int).to_multiset(),
        decreases v@.len() - i,
    {
        insert_sorted(&mut r, v[i]);
        proof {
            broadcast use group_to_multiset_ensures;

            assert(v@.take(i + 1) =~= v@.take(i as int).push(v@[i as int]));
            assert(r@.to_multiset() =~= v@.take(i + 1).to_multiset());
        }
        i = i + 1;
    }
    proof {
        assert(v@.take(v@.len() as int) =~= v@);
        lemma_port_order_total();
        lemma_sorted_ports(v@);
        lemma_sorted_unique(r@, sorted_ports(v@), |x: i64, y: i64| x <= y);
        assert(r@ =~= sorted_ports(v@));
    }
    r
}

/// The text an optional field is displayed as: the value, or the
/// literal `None` when it is absent.
pub open spec fn opt_text(p: Option<String>) -> Seq<char> {
    match p {
        Some(s) => s@,
        None => "None"@,
    }
}

/// One port's line of the report: `Port: <port>/<transport> | <product-or-None>`.
pub open spec fn port_line(p: ShodanPortData) -> Seq<char> {
    "Port: "@ + int_to_dec(p.port as int) + "/"@ + p.transport@ + " | "@ + opt_text(p.product)
        + "\n"@
}

/// The per-port lines of the report, one per detail record, in order.
pub open spec fn port_lines(s: Seq<ShodanPortData>) -> Seq<char>
    decreases s.len(),
{
    if s.len() == 0 {
        Seq::empty()
    } else {
        port_lines(s.drop_last()) + port_line(s.last())
    }
}

/// The tags line's text: the tag texts joined with `", "`, or the
/// literal `None` when the tags field is absent or its list is empty.
pub open spec fn tags_text(tags: Option<Vec<String>>) -> Seq<char> {
    match tags {
        Some(ts) => if ts@.len() == 0 {
            "None"@
        } else {
            join_comma(views_of(ts@))
        },
        None => "None"@,
    }
}

/// An absent tags field and an empty tags list are displayed alike:
/// both give the literal `None` in the tags line.
pub proof fn lemma_tags_none_alike(ts: Vec<String>)
    requires
        ts@.len() == 0,
    ensures
        tags_text(Some(ts)) == tags_text(None::<Vec<String>>),
{
}

/// A port detail without a product renders as
/// `Port: <port>/<transport> | None`.
pub proof fn lemma_port_line_no_product(p: ShodanPortData)
    requires
        p.product is None,
    ensures
        port_line(p) == "Port: "@ + int_to_dec(p.port as int) + "/"@ + p.transport@
            + " | None\n"@,
{
    reveal_strlit(" | ");
    reveal_strlit("None");
    reveal_strlit("\n");
    reveal_strlit(" | None\n");
    assert(" | "@ + "None"@ + "\n"@ =~= " | None\n"@);
    assert(port_line(p) =~= "Port: "@ + int_to_dec(p.port as int) + "/"@ + p.transport@
        + " | None\n"@);
}

/// The report does not depend on the input order of the open ports:
/// any rearrangement of the same ports renders identically, since the
/// presenter sorts them ascending.
pub proof fn lemma_render_ignores_port_order(h: ShodanHostData, ports2: Vec<i64>)
    requires
        ports2@.to_multiset() == h.ports@.to_multiset(),
    ensures
        rendered((ShodanHostData { ports: ports2, ..h })) == rendered(h),
{
    lemma_port_order_total();
    lemma_sorted_ports(ports2@);
    lemma_sorted_ports(h.ports@);
    lemma_sorted_unique(sorted_ports(ports2@), sorted_ports(h.ports@), |x: i64, y: i64| x <= y);
    assert(sorted_ports(ports2@) =~= sorted_ports(h.ports@));
}

/// A record with an empty tags list renders exactly as the same record
/// with the tags field absent.
pub proof fn lemma_render_tags_absent_like_empty(h: ShodanHostData, ts: Vec<String>)
    requires
        ts@.len() == 0,
        h.tags == Some(ts),
    ensures
        rendered(h) == rendered((ShodanHostData { tags: None, ..h })),
{
    lemma_tags_none_alike(ts);
}

fn port_line_exec(p: &ShodanPortData) -> (r: String)
    ensures
        r@ == port_line(*p),
{
    let mut r = "Port: ".to_owned();
    r.append(i64_to_string(p.port).as_str());
    r.append("/");
    r.append(p.transport.as_str());
    r.append(" | ");
    match &p.product {
        Some(s) => r.append(s.as_str()),
        None => r.append("None"),
    }
    r.append("\n");
    proof {
        assert(r@ =~= port_line(*p));
    }
    r
}

fn port_lines_exec(data: &Vec<ShodanPortData>) -> (r: String)
    ensures
        r@ == port_lines(data@),
{
    let mut r = String::new();
    let mut i: usize = 0;
    while i < data.len()
        invariant
            0 <= i <= data@.len(),
            r@ == port_lines(data@.take(i as int)),
        decreases data@.len() - i,
    {
        r.append(port_line_exec(&data[i]).as_str());
        proof {
            assert(data@.take(i + 1).drop_last() =~= data@.take(i as int));
            assert(r@ =~= port_lines(data@.take(i + 1)));
        }
        i = i + 1;
    }
    proof {
        assert(data@.take(data@.len() as int) =~= data@);
    }
    r
}

fn tags_line(tags: &Option<Vec<String>>) -> (r: String)
    ensures
        r@ == tags_text(*tags),
{
    match tags {
        Some(ts) => {
            if ts.len() == 0 {
                "None".to_owned()
            } else {
                join_comma_exec(ts)
            }
        },
        None => "None".to_owned(),
    }
}

/// The full fixed multi-line report a host record is displayed as:
/// the record's fields in a fixed order, the open ports ascending and
/// comma-joined, one line per port detail, the tags comma-joined or
/// `None`, and the web-profile link constructed from the IP.
pub open spec fn rendered(h: ShodanHostData) -> Seq<char> {
    "IP:           "@ + h.ip_str@ + "\n"@ + "ASN:          "@ + h.asn@ + "\n"@
        + "City:         "@ + h.city@ + "\n"@ + "Country code: "@ + h.country_code@ + "\n"@
        + "Country name: "@ + h.country_name@ + "\n"@ + "ISP:          "@ + h.isp@ + "\n"@
        + "Last update:  "@ + h.last_update@ + "\n"@ + "Organization: "@ + h.org@ + "\n"@
        + "OS:           "@ + h.os@ + "\n"@ + "Port list:    "@ + join_ports(
        sorted_ports(h.ports@),
    ) + "\n"@ + "Comprehensive information about ports:\n"@ + port_lines(h.data@) + "\n"@
        + "Region code:  "@ + h.region_code@ + "\n"@ + "Tags:         "@ + tags_text(h.tags)
        + "\n"@ + "Link:         "@ + "https://www.shodan.io/host/"@ + h.ip_str@ + "\n"@
}

impl ShodanHostData {
    /// Formats the record into its multi-line human-readable report — a
    /// pure function of the record.
    pub fn render(&self) -> (r: String)
        ensures
            r@ == rendered(*self),
    {
        let mut r = "IP:           ".to_owned();
        r.append(self.ip_str.as_str());
        r.append("\n");
        r.append("ASN:          ");
        r.append(self.asn.as_str());
        r.append("\n");
        r.append("City:         ");
        r.append(self.city.as_str());
        r.append("\n");
        r.append("Country code: ");
        r.append(self.country_code.as_str());
        r.append("\n");
        r.append("Country name: ");
        r.append(self.country_name.as_str());
        r.append("\n");
        r.append("ISP:          ");
        r.append(self.isp.as_str());
        r.append("\n");
        r.append("Last update:  ");
        r.append(self.last_update.as_str());
        r.append("\n");
        r.append("Organization: ");
        r.append(self.org.as_str());
        r.append("\n");
        r.append("OS:           ");
        r.append(self.os.as_str());
        r.append("\n");
        r.append("Port list:    ");
        let sorted = sort_ports(&self.ports);
        r.append(join_ports_exec(&sorted).as_str());
        r.append("\n");
        r.append("Comprehensive information about ports:\n");
        r.append(port_lines_exec(&self.data).as_str());
        r.append("\n");
        r.append("Region code:  ");
        r.append(self.region_code.as_str());
        r.append("\n");
        r.append("Tags:         ");
        r.append(tags_line(&self.tags).as_str());
        r.append("\n");
        r.append("Link:         ");
        r.append("https://www.shodan.io/host/");
        r.append(self.ip_str.as_str());
        r.append("\n");
        proof {
            assert(r@ =~= rendered(*self));
        }
        r
    }
}

} // verus!
