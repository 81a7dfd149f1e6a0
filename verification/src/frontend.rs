//! The web front end: its routes and the page structure it renders.

use vstd::prelude::*;
use crate::datetime::{is_local_text, local_clock};
use crate::common::{DhcpLease, DhcpLeaseView, NetworkAddress, NetworkInterface, oper_state_text};
use crate::ip::{ip_text, ip_to_string};
use crate::num::{decimal, push_decimal};
use crate::text::{chars_of, chars_eq_str, owned, slice_chars, string_of};

verus! {

/// The pages of the front end.
#[derive(Clone, Copy, Debug, PartialEq, Eq, Structural)]
pub enum Route {
    Home,
    DhcpLeases,
    Interfaces,
    /// Any path that names no page.
    NotFound,
}

/// The path of a route.
pub open spec fn route_path(r: Route) -> Seq<char> {
    match r {
        Route::Home => "/"@,
        Route::DhcpLeases => "/dhcp-leases"@,
        Route::Interfaces => "/interfaces"@,
        Route::NotFound => "/404"@,
    }
}

/// The part of a path that names a page: the path without one trailing
/// `/` and then without one leading `/`.
pub open spec fn page_key(p: Seq<char>) -> Seq<char> {
    let q = if p.len() > 0 && p.last() == '/' {
        p.drop_last()
    } else {
        p
    };
    if q.len() > 0 && q[0] == '/' {
        q.drop_first()
    } else {
        q
    }
}

/// The route of a path: the page whose path it is, up to one leading and
/// one trailing `/`; the not-found page for every other path.
pub open spec fn route_of_path(p: Seq<char>) -> Route {
    let k = page_key(p);
    if k == Seq::<char>::empty() {
        Route::Home
    } else if k == "dhcp-leases"@ {
        Route::DhcpLeases
    } else if k == "interfaces"@ {
        Route::Interfaces
    } else {
        Route::NotFound
    }
}

impl Route {
    /// The path of the route.
    pub fn to_path(&self) -> (r: String)
        ensures
            r@ == route_path(*self),
    {
        match self {
            Route::Home => owned("/"),
            Route::DhcpLeases => owned("/dhcp-leases"),
            Route::Interfaces => owned("/interfaces"),
            Route::NotFound => owned("/404"),
        }
    }

    /// The route of a path.
    pub fn recognize(path: &str) -> (r: Route)
        ensures
            r == route_of_path(path@),
    {
        let p = chars_of(path);
        let mut end = p.len();
        if end > 0 && p[end - 1] == '/' {
            end = end - 1;
        }
        let start: usize = if end > 0 && p[0] == '/' {
            1
        } else {
            0
        };
        let k = slice_chars(&p, start, end);
        proof {
            let q = if p@.len() > 0 && p@.last() == '/' {
                p@.drop_last()
            } else {
                p@
            };
            assert(q =~= p@.subrange(0, end as int));
            assert(k@ =~= page_key(path@));
        }
        if k.len() == 0 {
            assert(k@ =~= Seq::<char>::empty());
            Route::Home
        } else if chars_eq_str(&k, "dhcp-leases") {
            Route::DhcpLeases
        } else if chars_eq_str(&k, "interfaces") {
            Route::Interfaces
        } else {
            Route::NotFound
        }
    }
}

/// Every route is the route of its own path.
pub proof fn law_route_path_round_trip(r: Route)
    ensures
        route_of_path(route_path(r)) == r,
{
    reveal_strlit("/");
    reveal_strlit("/dhcp-leases");
    reveal_strlit("dhcp-leases");
    reveal_strlit("/interfaces");
    reveal_strlit("interfaces");
    reveal_strlit("/404");
    assert(page_key("/"@) =~= Seq::<char>::empty());
    assert(page_key("/dhcp-leases"@) =~= "dhcp-leases"@);
    assert(page_key("/interfaces"@) =~= "interfaces"@);
    assert(page_key("/404"@) =~= seq!['4', '0', '4']);
    assert("dhcp-leases"@.len() == 11);
    assert("interfaces"@.len() == 10);
}

// ---------------------------------------------------------------------------
// Pages

/// A piece of page structure.
pub enum Html {
    /// An element with its tag, attributes and children.
    Element { tag: String, attributes: Vec<(String, String)>, children: Vec<Html> },
    /// Text.
    Text(String),
    /// A link to a page of the front end.
    Link { to: Route, children: Vec<Html> },
    /// Children without an element around them.
    Fragment(Vec<Html>),
}

/// Page structure with its texts as character sequences.
pub enum HtmlView {
    Element { tag: Seq<char>, attributes: Seq<(Seq<char>, Seq<char>)>, children: Seq<HtmlView> },
    Text(Seq<char>),
    Link { to: Route, children: Seq<HtmlView> },
    Fragment(Seq<HtmlView>),
}

/// The view of a list of pieces.
pub open spec fn html_views(v: Seq<Html>) -> Seq<HtmlView>
    decreases v,
{
    if v.len() == 0 {
        Seq::empty()
    } else {
        html_views(v.drop_last()).push(html_view(v.last()))
    }
}

/// The view of a piece of page structure.
pub open spec fn html_view(h: Html) -> HtmlView
    decreases h,
{
    match h {
        Html::Element { tag, attributes, children } => HtmlView::Element {
            tag: tag@,
            attributes: attributes@.map_values(|a: (String, String)| (a.0@, a.1@)),
            children: html_views(children@),
        },
        Html::Text(t) => HtmlView::Text(t@),
        Html::Link { to, children } => HtmlView::Link { to, children: html_views(children@) },
        Html::Fragment(children) => HtmlView::Fragment(html_views(children@)),
    }
}


/// An element in the view.
pub open spec fn el(tag: Seq<char>, attributes: Seq<(Seq<char>, Seq<char>)>, children: Seq<HtmlView>) -> HtmlView {
    HtmlView::Element { tag, attributes, children }
}

/// A text in the view.
pub open spec fn txt(t: Seq<char>) -> HtmlView {
    HtmlView::Text(t)
}

/// A list item holding a link to an outside address.
pub open spec fn outside_link_item(href: Seq<char>, label: Seq<char>) -> HtmlView {
    el("li"@, seq![], seq![el("a"@, seq![("href"@, href)], seq![txt(label)])])
}

/// The site header: the host name and the logo.
pub open spec fn header_spec() -> HtmlView {
    el(
        "header"@,
        seq![],
        seq![
            el("h1"@, seq![], seq![txt("router.arago136.es"@)]),
            el(
                "div"@,
                seq![("class"@, "logo-container"@)],
                seq![el("div"@, seq![("class"@, "logo"@)], seq![])],
            ),
        ],
    )
}

/// The navigation bar: links to the three pages, separated by bars.
pub open spec fn nav_spec() -> HtmlView {
    el(
        "nav"@,
        seq![],
        seq![
            HtmlView::Link { to: Route::Home, children: seq![txt("Home"@)] },
            txt(" | "@),
            HtmlView::Link { to: Route::DhcpLeases, children: seq![txt("DHCP Leases"@)] },
            txt(" | "@),
            HtmlView::Link { to: Route::Interfaces, children: seq![txt("Network interfaces"@)] },
        ],
    )
}

/// The home page: header, navigation, and links to the other services
/// running on the router.
pub open spec fn home_spec() -> HtmlView {
    HtmlView::Fragment(
        seq![
            header_spec(),
            nav_spec(),
            el(
                "section"@,
                seq![],
                seq![
                    el("header"@, seq![], seq![el("h1"@, seq![], seq![txt("Links"@)])]),
                    el(
                        "div"@,
                        seq![("class"@, "help"@)],
                        seq![
                            el(
                                "p"@,
                                seq![],
                                seq![txt("Links to other services running on this device"@)],
                            ),
                        ],
                    ),
                    outside_link_item("/bandwidthd/"@, "BandwidthD"@),
                    outside_link_item("/darkstat/"@, "DarkStat"@),
                    outside_link_item("/netdata/"@, "Netdata"@),
                    outside_link_item("https://pihole.arago136.es/"@, "Pi-hole"@),
                ],
            ),
        ],
    )
}

/// The frame of the data pages: a title, links to the home and lease
/// pages, then the page's own content.
pub open spec fn template_spec(children: Seq<HtmlView>) -> HtmlView {
    HtmlView::Fragment(
        seq![
            el("header"@, seq![], seq![el("h1"@, seq![], seq![txt("JP Router"@)])]),
            el(
                "nav"@,
                seq![],
                seq![
                    HtmlView::Link { to: Route::Home, children: seq![txt("Home"@)] },
                    txt(" | "@),
                    HtmlView::Link { to: Route::DhcpLeases, children: seq![txt("DHCP Leases"@)] },
                ],
            ),
            HtmlView::Fragment(children),
        ],
    )
}

/// The page for paths that name no page.
pub open spec fn not_found_spec() -> HtmlView {
    el(
        "section"@,
        seq![],
        seq![
            el("h2"@, seq![], seq![txt("Not Found"@)]),
            el("p"@, seq![], seq![txt("Page not found"@)]),
        ],
    )
}

/// Appends a piece to a list of pieces.
fn push_child(v: &mut Vec<Html>, h: Html)
    ensures
        html_views(final(v)@) == html_views(old(v)@).push(html_view(h)),
{
    let ghost hv = html_view(h);
    v.push(h);
    assert(v@.drop_last() =~= old(v)@);
}

/// No pieces.
fn no_children() -> (r: Vec<Html>)
    ensures
        html_views(r@) == Seq::<HtmlView>::empty(),
{
    Vec::new()
}

/// A text piece.
pub fn text(t: &str) -> (r: Html)
    ensures
        html_view(r) == txt(t@),
{
    Html::Text(owned(t))
}

/// An element without attributes.
pub fn element(tag: &str, children: Vec<Html>) -> (r: Html)
    ensures
        html_view(r) == el(tag@, seq![], html_views(children@)),
{
    let attributes: Vec<(String, String)> = Vec::new();
    let r = Html::Element { tag: owned(tag), attributes, children };
    assert(attributes@.map_values(|a: (String, String)| (a.0@, a.1@)) =~= seq![]);
    r
}

/// An element with one attribute.
pub fn element_with(tag: &str, name: &str, value: &str, children: Vec<Html>) -> (r: Html)
    ensures
        html_view(r) == el(tag@, seq![(name@, value@)], html_views(children@)),
{
    let mut attributes: Vec<(String, String)> = Vec::new();
    attributes.push((owned(name), owned(value)));
    let r = Html::Element { tag: owned(tag), attributes, children };
    assert(attributes@.map_values(|a: (String, String)| (a.0@, a.1@)) =~= seq![(name@, value@)]);
    r
}

/// An element holding one piece.
fn element1(tag: &str, child: Html) -> (r: Html)
    ensures
        html_view(r) == el(tag@, seq![], seq![html_view(child)]),
{
    let ghost cv = html_view(child);
    let mut c = no_children();
    push_child(&mut c, child);
    assert(html_views(c@) =~= seq![cv]);
    element(tag, c)
}

/// A link to a page holding one text.
fn page_link(to: Route, label: &str) -> (r: Html)
    ensures
        html_view(r) == (HtmlView::Link { to, children: seq![txt(label@)] }),
{
    let mut c = no_children();
    push_child(&mut c, text(label));
    assert(html_views(c@) =~= seq![txt(label@)]);
    Html::Link { to, children: c }
}

/// A list item holding a link to an outside address.
fn outside_link(href: &str, label: &str) -> (r: Html)
    ensures
        html_view(r) == outside_link_item(href@, label@),
{
    let mut c = no_children();
    push_child(&mut c, text(label));
    assert(html_views(c@) =~= seq![txt(label@)]);
    element1("li", element_with("a", "href", href, c))
}

/// The site header.
pub fn header() -> (r: Html)
    ensures
        html_view(r) == header_spec(),
{
    let logo = element_with("div", "class", "logo", no_children());
    let mut c = no_children();
    push_child(&mut c, logo);
    assert(html_views(c@) =~= seq![el("div"@, seq![("class"@, "logo"@)], seq![])]);
    let container = element_with("div", "class", "logo-container", c);
    let mut h = no_children();
    push_child(&mut h, element1("h1", text("router.arago136.es")));
    push_child(&mut h, container);
    assert(html_views(h@) =~= header_spec()->Element_children);
    element("header", h)
}

/// The navigation bar.
pub fn nav() -> (r: Html)
    ensures
        html_view(r) == nav_spec(),
{
    let mut c = no_children();
    push_child(&mut c, page_link(Route::Home, "Home"));
    push_child(&mut c, text(" | "));
    push_child(&mut c, page_link(Route::DhcpLeases, "DHCP Leases"));
    push_child(&mut c, text(" | "));
    push_child(&mut c, page_link(Route::Interfaces, "Network interfaces"));
    assert(html_views(c@) =~= nav_spec()->Element_children);
    element("nav", c)
}

/// The home page.
pub fn home() -> (r: Html)
    ensures
        html_view(r) == home_spec(),
{
    let mut help = no_children();
    push_child(&mut help, element1("p", text("Links to other services running on this device")));
    assert(html_views(help@) =~= seq![
        el("p"@, seq![], seq![txt("Links to other services running on this device"@)]),
    ]);
    let mut s = no_children();
    push_child(&mut s, element1("header", element1("h1", text("Links"))));
    push_child(&mut s, element_with("div", "class", "help", help));
    push_child(&mut s, outside_link("/bandwidthd/", "BandwidthD"));
    push_child(&mut s, outside_link("/darkstat/", "DarkStat"));
    push_child(&mut s, outside_link("/netdata/", "Netdata"));
    push_child(&mut s, outside_link("https://pihole.arago136.es/", "Pi-hole"));
    assert(html_views(s@) =~= home_spec()->Fragment_0[2]->Element_children);
    let mut page = no_children();
    push_child(&mut page, header());
    push_child(&mut page, nav());
    push_child(&mut page, element("section", s));
    assert(html_views(page@) =~= home_spec()->Fragment_0);
    Html::Fragment(page)
}

/// A copy of a list of attributes.
fn copy_attributes(a: &Vec<(String, String)>) -> (r: Vec<(String, String)>)
    ensures
        r@.map_values(|x: (String, String)| (x.0@, x.1@)) == a@.map_values(
            |x: (String, String)| (x.0@, x.1@),
        ),
{
    let mut r: Vec<(String, String)> = Vec::new();
    let mut i: usize = 0;
    while i < a.len()
        invariant
            i <= a@.len(),
            r@.len() == i,
            forall|k: int| 0 <= k < i ==> #[trigger] r@[k].0@ == a@[k].0@ && r@[k].1@ == a@[k].1@,
        decreases a.len() - i,
    {
        r.push((a[i].0.clone(), a[i].1.clone()));
        i += 1;
    }
    assert(r@.map_values(|x: (String, String)| (x.0@, x.1@)) =~= a@.map_values(
        |x: (String, String)| (x.0@, x.1@),
    ));
    r
}

/// A copy of a list of pieces.
fn copy_children(v: &Vec<Html>) -> (r: Vec<Html>)
    ensures
        html_views(r@) == html_views(v@),
    decreases v@, 1nat,
{
    let mut r = no_children();
    let mut i: usize = 0;
    while i < v.len()
        invariant
            i <= v@.len(),
            html_views(r@) == html_views(v@.take(i as int)),
        decreases v.len() - i,
    {
        assert(v@.take(i + 1).drop_last() =~= v@.take(i as int));
        proof {
            assert(decreases_to!(v@ => v@[i as int]));
        }
        push_child(&mut r, copy_html(&v[i]));
        i += 1;
    }
    assert(v@.take(v.len() as int) =~= v@);
    r
}

/// A copy of a piece of page structure.
pub fn copy_html(h: &Html) -> (r: Html)
    ensures
        html_view(r) == html_view(*h),
    decreases *h, 0nat,
{
    match h {
        Html::Element { tag, attributes, children } => {
            proof {
                assert(decreases_to!(*h => *children));
            }
            Html::Element {
                tag: tag.clone(),
                attributes: copy_attributes(attributes),
                children: copy_children(children),
            }
        },
        Html::Text(t) => Html::Text(t.clone()),
        Html::Link { to, children } => Html::Link { to: *to, children: copy_children(children) },
        Html::Fragment(children) => Html::Fragment(copy_children(children)),
    }
}

/// What the frame of the data pages holds.
pub struct TemplateProps {
    pub children: Vec<Html>,
}

/// The frame of the data pages around their content.
pub fn template(props: &TemplateProps) -> (r: Html)
    ensures
        html_view(r) == template_spec(html_views(props.children@)),
{
    let mut links = no_children();
    push_child(&mut links, page_link(Route::Home, "Home"));
    push_child(&mut links, text(" | "));
    push_child(&mut links, page_link(Route::DhcpLeases, "DHCP Leases"));
    assert(html_views(links@) =~= template_spec(seq![])->Fragment_0[1]->Element_children);
    let mut page = no_children();
    push_child(&mut page, element1("header", element1("h1", text("JP Router"))));
    push_child(&mut page, element("nav", links));
    push_child(&mut page, Html::Fragment(copy_children(&props.children)));
    assert(html_views(page@) =~= template_spec(html_views(props.children@))->Fragment_0);
    Html::Fragment(page)
}

/// The page for paths that name no page.
pub fn not_found() -> (r: Html)
    ensures
        html_view(r) == not_found_spec(),
{
    let mut c = no_children();
    push_child(&mut c, element1("h2", text("Not Found")));
    push_child(&mut c, element1("p", text("Page not found")));
    assert(html_views(c@) =~= not_found_spec()->Element_children);
    element("section", c)
}


// ---------------------------------------------------------------------------
// Data pages

/// A text child if there is a text, no child otherwise.
pub open spec fn optional_text(t: Option<Seq<char>>) -> Seq<HtmlView> {
    match t {
        Some(t) => seq![txt(t)],
        None => seq![],
    }
}

/// A table cell.
pub open spec fn cell(children: Seq<HtmlView>) -> HtmlView {
    el("td"@, seq![], children)
}

/// A table cell holding a decimal number.
pub open spec fn number_cell(n: nat) -> HtmlView {
    cell(seq![txt(decimal(n))])
}

/// The table row of a lease: expiry time (as the caller wrote it), MAC
/// address, IP address, host name and client id; keyed by the IP address.
pub open spec fn lease_row_spec(l: DhcpLeaseView, expiry_text: Seq<char>) -> HtmlView {
    el(
        "tr"@,
        seq![("key"@, ip_text(l.ip_address))],
        seq![
            cell(seq![txt(expiry_text)]),
            cell(seq![txt(l.mac_address)]),
            cell(seq![txt(ip_text(l.ip_address))]),
            cell(optional_text(l.hostname)),
            cell(optional_text(l.client_id)),
        ],
    )
}

/// A table with a heading row and body rows, in a section with a title,
/// framed by the template.
pub open spec fn table_page_spec(
    title: Seq<char>,
    heading: Seq<HtmlView>,
    rows: Seq<HtmlView>,
) -> HtmlView {
    template_spec(
        seq![
            el(
                "section"@,
                seq![],
                seq![
                    el("h2"@, seq![], seq![txt(title)]),
                    el(
                        "table"@,
                        seq![],
                        seq![
                            el("thead"@, seq![], seq![el("tr"@, seq![], heading)]),
                            el("tbody"@, seq![], rows),
                        ],
                    ),
                ],
            ),
        ],
    )
}

/// A heading cell.
pub open spec fn heading_cell(t: Seq<char>) -> HtmlView {
    el("th"@, seq![], seq![txt(t)])
}

/// The heading of the lease table.
pub open spec fn lease_heading() -> Seq<HtmlView> {
    seq![
        heading_cell("Expiry time"@),
        heading_cell("MAC address"@),
        heading_cell("IP address"@),
        heading_cell("Hostname"@),
        heading_cell("Client ID"@),
    ]
}

/// The heading of the interface table.
pub open spec fn interface_heading() -> Seq<HtmlView> {
    seq![
        heading_cell("Name"@),
        heading_cell("State"@),
        heading_cell("MAC address"@),
        heading_cell("IP address"@),
        heading_cell("Speed"@),
        heading_cell("MTU"@),
        el("th"@, seq![("colspan"@, "4"@)], seq![txt("RX"@)]),
        el("th"@, seq![("colspan"@, "4"@)], seq![txt("TX"@)]),
    ]
}

/// One address of an interface: its text, `/`, its prefix length and a
/// line break.
pub open spec fn address_line(a: NetworkAddress) -> HtmlView {
    HtmlView::Fragment(
        seq![
            txt(ip_text(a.address)),
            txt("/"@),
            txt(decimal(a.prefix_len as nat)),
            el("br"@, seq![], seq![]),
        ],
    )
}

/// The address lines of a list of addresses.
pub open spec fn address_lines(v: Seq<NetworkAddress>) -> Seq<HtmlView> {
    v.map_values(|a: NetworkAddress| address_line(a))
}

/// The table row of an interface, keyed by its name.
pub open spec fn interface_row_spec(i: NetworkInterface) -> HtmlView {
    el(
        "tr"@,
        seq![("key"@, i.name@)],
        seq![
            cell(seq![txt(i.name@)]),
            cell(seq![txt(oper_state_text(i.oper_state))]),
            cell(seq![txt(i.mac_address@)]),
            cell(address_lines(i.ip_addresses@)),
            cell(
                match i.speed {
                    Some(s) => seq![txt(decimal(s as nat))],
                    None => seq![],
                },
            ),
            number_cell(i.mtu as nat),
            number_cell(i.rx_packets as nat),
            number_cell(i.rx_bytes as nat),
            number_cell(i.rx_dropped as nat),
            number_cell(i.rx_errors as nat),
            number_cell(i.tx_packets as nat),
            number_cell(i.tx_bytes as nat),
            number_cell(i.tx_dropped as nat),
            number_cell(i.tx_errors as nat),
        ],
    )
}

/// The address cell of an interface's row lists the interface's addresses
/// themselves, in order, each once: line `k` is the text of the `k`-th
/// address, `/`, its prefix length in decimal, and a line break.
pub proof fn law_address_cell_lists_each_address(i: NetworkInterface, k: int)
    requires
        0 <= k < i.ip_addresses@.len(),
    ensures
        interface_row_spec(i)->Element_children[3]->Element_children.len() == i.ip_addresses@.len(),
        interface_row_spec(i)->Element_children[3]->Element_children[k] == HtmlView::Fragment(
            seq![
                HtmlView::Text(ip_text(i.ip_addresses@[k].address)),
                HtmlView::Text(seq!['/']),
                HtmlView::Text(decimal(i.ip_addresses@[k].prefix_len as nat)),
                HtmlView::Element { tag: seq!['b', 'r'], attributes: seq![], children: seq![] },
            ],
        ),
{
    reveal_strlit("/");
    reveal_strlit("br");
    assert("/"@ =~= seq!['/']);
    assert("br"@ =~= seq!['b', 'r']);
}

/// A text piece from a string.
fn text_of(t: String) -> (r: Html)
    ensures
        html_view(r) == txt(t@),
{
    Html::Text(t)
}

/// A text piece holding a decimal number.
fn number_text(n: u64) -> (r: Html)
    ensures
        html_view(r) == txt(decimal(n as nat)),
{
    let mut out: Vec<char> = Vec::new();
    push_decimal(&mut out, n);
    assert(out@ =~= decimal(n as nat));
    Html::Text(string_of(&out))
}

/// A cell with the given children.
fn cell_of(children: Vec<Html>) -> (r: Html)
    ensures
        html_view(r) == cell(html_views(children@)),
{
    element("td", children)
}

/// A cell holding one piece.
fn cell1(h: Html) -> (r: Html)
    ensures
        html_view(r) == cell(seq![html_view(h)]),
{
    element1("td", h)
}

/// A cell holding an optional string.
fn optional_cell(t: &Option<String>) -> (r: Html)
    ensures
        html_view(r) == cell(optional_text(crate::common::opt_view(*t))),
{
    let mut c = no_children();
    match t {
        Some(t) => {
            push_child(&mut c, text_of(t.clone()));
            assert(html_views(c@) =~= seq![txt(t@)]);
        },
        None => {},
    }
    cell_of(c)
}

/// An element with one attribute whose value is a string.
fn element_with_value(tag: &str, name: &str, value: String, children: Vec<Html>) -> (r: Html)
    ensures
        html_view(r) == el(tag@, seq![(name@, value@)], html_views(children@)),
{
    let mut attributes: Vec<(String, String)> = Vec::new();
    let ghost vv = value@;
    attributes.push((owned(name), value));
    let r = Html::Element { tag: owned(tag), attributes, children };
    assert(attributes@.map_values(|a: (String, String)| (a.0@, a.1@)) =~= seq![(name@, vv)]);
    r
}

/// The text of a lease's expiry cell: the given text where the lease
/// expires, nothing where it does not.
pub open spec fn expiry_cell_text(l: DhcpLeaseView, expiry_text: Seq<char>) -> Seq<char> {
    if l.expiry_time is Some {
        expiry_text
    } else {
        Seq::empty()
    }
}

/// The table row of a lease, with its expiry time already written as
/// `expiry_text` (used only where the lease expires).
pub fn lease_row(lease: &DhcpLease, expiry_text: &str) -> (r: Html)
    ensures
        html_view(r) == lease_row_spec(lease@, expiry_cell_text(lease@, expiry_text@)),
{
    proof {
        reveal_strlit("");
        assert(""@ =~= Seq::<char>::empty());
    }
    let expiry = if lease.expiry_time.is_some() {
        text(expiry_text)
    } else {
        text("")
    };
    assert(html_view(expiry) == txt(expiry_cell_text(lease@, expiry_text@)));
    let mut c = no_children();
    push_child(&mut c, cell1(expiry));
    push_child(&mut c, cell1(text_of(lease.mac_address.clone())));
    push_child(&mut c, cell1(text_of(ip_to_string(lease.ip_address))));
    push_child(&mut c, optional_cell(&lease.hostname));
    push_child(&mut c, optional_cell(&lease.client_id));
    assert(html_views(c@) =~= lease_row_spec(
        lease@,
        expiry_cell_text(lease@, expiry_text@),
    )->Element_children);
    element_with_value("tr", "key", ip_to_string(lease.ip_address), c)
}

/// Heading cells.
fn heading(t: &str) -> (r: Html)
    ensures
        html_view(r) == heading_cell(t@),
{
    element1("th", text(t))
}

/// The page of a table framed by the template.
fn table_page(title: &str, head: Vec<Html>, rows: Vec<Html>) -> (r: Html)
    ensures
        html_view(r) == table_page_spec(title@, html_views(head@), html_views(rows@)),
{
    let ghost hv = html_views(head@);
    let ghost rv = html_views(rows@);
    let mut t = no_children();
    push_child(&mut t, element1("thead", element("tr", head)));
    push_child(&mut t, element("tbody", rows));
    let mut sec = no_children();
    push_child(&mut sec, element1("h2", text(title)));
    push_child(&mut sec, element("table", t));
    assert(html_views(t@) =~= seq![
        el("thead"@, seq![], seq![el("tr"@, seq![], hv)]),
        el("tbody"@, seq![], rv),
    ]);
    let mut content = no_children();
    push_child(&mut content, element("section", sec));
    assert(html_views(sec@) =~= table_page_spec(title@, hv, rv)->Fragment_0[2]->Fragment_0[0]->Element_children);
    assert(html_views(content@) =~= table_page_spec(title@, hv, rv)->Fragment_0[2]->Fragment_0);
    template(&TemplateProps { children: content })
}

/// The DHCP lease page around the rows of the leases.
pub fn dhcp_leases_page(rows: Vec<Html>) -> (r: Html)
    ensures
        html_view(r) == table_page_spec("DHCP leases"@, lease_heading(), html_views(rows@)),
{
    let mut h = no_children();
    push_child(&mut h, heading("Expiry time"));
    push_child(&mut h, heading("MAC address"));
    push_child(&mut h, heading("IP address"));
    push_child(&mut h, heading("Hostname"));
    push_child(&mut h, heading("Client ID"));
    assert(html_views(h@) =~= lease_heading());
    table_page("DHCP leases", h, rows)
}

/// The lines of the addresses of an interface.
fn address_cell(v: &Vec<NetworkAddress>) -> (r: Html)
    ensures
        html_view(r) == cell(address_lines(v@)),
{
    let mut c = no_children();
    let mut i: usize = 0;
    while i < v.len()
        invariant
            i <= v@.len(),
            html_views(c@) == address_lines(v@.take(i as int)),
        decreases v.len() - i,
    {
        let a = v[i];
        let mut line = no_children();
        push_child(&mut line, text_of(ip_to_string(a.address)));
        push_child(&mut line, text("/"));
        push_child(&mut line, number_text(a.prefix_len as u64));
        push_child(&mut line, element("br", no_children()));
        assert(html_views(line@) =~= address_line(a)->Fragment_0);
        push_child(&mut c, Html::Fragment(line));
        i += 1;
        assert(address_lines(v@.take(i as int)) =~= address_lines(v@.take(i - 1)).push(address_line(a)));
    }
    assert(v@.take(v.len() as int) =~= v@);
    cell_of(c)
}

/// The table row of an interface.
pub fn interface_row(iface: &NetworkInterface) -> (r: Html)
    ensures
        html_view(r) == interface_row_spec(*iface),
{
    let mut speed = no_children();
    match iface.speed {
        Some(s) => {
            push_child(&mut speed, number_text(s));
            assert(html_views(speed@) =~= seq![txt(decimal(s as nat))]);
        },
        None => {},
    }
    let mut c = no_children();
    push_child(&mut c, cell1(text_of(iface.name.clone())));
    push_child(&mut c, cell1(text_of(iface.oper_state.to_display_string())));
    push_child(&mut c, cell1(text_of(iface.mac_address.clone())));
    push_child(&mut c, address_cell(&iface.ip_addresses));
    push_child(&mut c, cell_of(speed));
    push_child(&mut c, cell1(number_text(iface.mtu as u64)));
    push_child(&mut c, cell1(number_text(iface.rx_packets)));
    push_child(&mut c, cell1(number_text(iface.rx_bytes)));
    push_child(&mut c, cell1(number_text(iface.rx_dropped)));
    push_child(&mut c, cell1(number_text(iface.rx_errors)));
    push_child(&mut c, cell1(number_text(iface.tx_packets)));
    push_child(&mut c, cell1(number_text(iface.tx_bytes)));
    push_child(&mut c, cell1(number_text(iface.tx_dropped)));
    push_child(&mut c, cell1(number_text(iface.tx_errors)));
    assert(html_views(c@) =~= interface_row_spec(*iface)->Element_children);
    element_with_value("tr", "key", iface.name.clone(), c)
}

/// The network interface page around the rows of the interfaces.
pub fn interfaces_page(rows: Vec<Html>) -> (r: Html)
    ensures
        html_view(r) == table_page_spec("Network interfaces"@, interface_heading(), html_views(rows@)),
{
    let mut h = no_children();
    push_child(&mut h, heading("Name"));
    push_child(&mut h, heading("State"));
    push_child(&mut h, heading("MAC address"));
    push_child(&mut h, heading("IP address"));
    push_child(&mut h, heading("Speed"));
    push_child(&mut h, heading("MTU"));
    let mut rx = no_children();
    push_child(&mut rx, text("RX"));
    assert(html_views(rx@) =~= seq![txt("RX"@)]);
    push_child(&mut h, element_with("th", "colspan", "4", rx));
    let mut tx = no_children();
    push_child(&mut tx, text("TX"));
    assert(html_views(tx@) =~= seq![txt("TX"@)]);
    push_child(&mut h, element_with("th", "colspan", "4", tx));
    assert(html_views(h@) =~= interface_heading());
    table_page("Network interfaces", h, rows)
}

// ---------------------------------------------------------------------------
// Routing

/// The page of a route as it is first rendered: the data pages start with no
/// rows, which their periodic fetches fill in later.
pub open spec fn switch_spec(r: Route) -> HtmlView {
    match r {
        Route::Home => home_spec(),
        Route::DhcpLeases => table_page_spec("DHCP leases"@, lease_heading(), seq![]),
        Route::Interfaces => table_page_spec("Network interfaces"@, interface_heading(), seq![]),
        Route::NotFound => not_found_spec(),
    }
}

/// The page that a route shows.
pub fn switch(routes: Route) -> (r: Html)
    ensures
        html_view(r) == switch_spec(routes),
{
    match routes {
        Route::Home => home(),
        Route::DhcpLeases => {
            let rows: Vec<Html> = Vec::new();
            assert(html_views(rows@) =~= seq![]);
            dhcp_leases_page(rows)
        },
        Route::Interfaces => {
            let rows: Vec<Html> = Vec::new();
            assert(html_views(rows@) =~= seq![]);
            interfaces_page(rows)
        },
        Route::NotFound => not_found(),
    }
}

// ---------------------------------------------------------------------------
// Pages of whole lists

/// The rows of a list of leases, each with the text of its expiry time.
pub open spec fn lease_rows_spec(v: Seq<(DhcpLeaseView, Seq<char>)>) -> Seq<HtmlView> {
    v.map_values(|p: (DhcpLeaseView, Seq<char>)| lease_row_spec(p.0, expiry_cell_text(p.0, p.1)))
}

/// The leases with their expiry texts, as views.
pub open spec fn leases_with_texts(v: Seq<(DhcpLease, String)>) -> Seq<(DhcpLeaseView, Seq<char>)> {
    v.map_values(|p: (DhcpLease, String)| (p.0@, p.1@))
}

/// The DHCP lease page of a list of leases: one row per lease, in order,
/// each lease given with the text of its expiry time.
pub fn dhcp_leases_page_of(leases: &Vec<(DhcpLease, String)>) -> (r: Html)
    ensures
        html_view(r) == table_page_spec(
            "DHCP leases"@,
            lease_heading(),
            lease_rows_spec(leases_with_texts(leases@)),
        ),
{
    let ghost lv = leases_with_texts(leases@);
    let mut rows = no_children();
    let mut i: usize = 0;
    while i < leases.len()
        invariant
            i <= leases@.len(),
            lv == leases_with_texts(leases@),
            html_views(rows@) == lease_rows_spec(lv.take(i as int)),
        decreases leases.len() - i,
    {
        let row = lease_row(&leases[i].0, leases[i].1.as_str());
        push_child(&mut rows, row);
        i += 1;
        assert(lease_rows_spec(lv.take(i as int)) =~= lease_rows_spec(lv.take(i - 1)).push(
            lease_row_spec(lv[i - 1].0, expiry_cell_text(lv[i - 1].0, lv[i - 1].1)),
        ));
    }
    assert(lv.take(leases.len() as int) =~= lv);
    dhcp_leases_page(rows)
}

/// The network interface page of a list of interfaces: one row per
/// interface, in order.
pub fn interfaces_page_of(ifaces: &Vec<NetworkInterface>) -> (r: Html)
    ensures
        html_view(r) == table_page_spec(
            "Network interfaces"@,
            interface_heading(),
            ifaces@.map_values(|i: NetworkInterface| interface_row_spec(i)),
        ),
{
    let mut rows = no_children();
    let mut i: usize = 0;
    while i < ifaces.len()
        invariant
            i <= ifaces@.len(),
            html_views(rows@) == ifaces@.take(i as int).map_values(
                |x: NetworkInterface| interface_row_spec(x),
            ),
        decreases ifaces.len() - i,
    {
        push_child(&mut rows, interface_row(&ifaces[i]));
        i += 1;
        assert(ifaces@.take(i as int).map_values(|x: NetworkInterface| interface_row_spec(x))
            =~= ifaces@.take(i - 1).map_values(|x: NetworkInterface| interface_row_spec(x)).push(
            interface_row_spec(ifaces@[i - 1]),
        ));
    }
    assert(ifaces@.take(ifaces.len() as int) =~= ifaces@);
    interfaces_page(rows)
}

/// How often a page fetches its data again, in milliseconds: the network
/// interface page every 400, the DHCP lease page every 5000; the other
/// pages fetch nothing.  Each data page also fetches once when it appears.
pub open spec fn poll_interval_spec(r: Route) -> Option<u64> {
    match r {
        Route::Interfaces => Some(400),
        Route::DhcpLeases => Some(5000),
        _ => None,
    }
}

/// How often a page fetches its data again.
pub fn poll_interval(r: Route) -> (ms: Option<u64>)
    ensures
        ms == poll_interval_spec(r),
{
    match r {
        Route::Interfaces => Some(400),
        Route::DhcpLeases => Some(5000),
        _ => None,
    }
}

/// The list a data page holds after a fetch: what was fetched when the
/// fetch succeeded, the list it held before when it failed.
pub fn list_after_fetch<T>(current: Vec<T>, fetched: Option<Vec<T>>) -> (r: Vec<T>)
    ensures
        r@ == match fetched {
            Some(v) => v@,
            None => current@,
        },
{
    match fetched {
        Some(v) => v,
        None => current,
    }
}

/// Every expiry time of a list is one that a UTC date and time can hold.
pub open spec fn expiry_times_representable(v: Seq<DhcpLease>) -> bool {
    forall|i: int|
        0 <= i < v.len() ==> ((#[trigger] v[i]).expiry_time matches Some(s) ==> crate::dhcp::min_utc_timestamp()
            <= s <= crate::dhcp::max_utc_timestamp())
}

/// Pairs each lease with its expiry time in the browser's local time,
/// `%Y-%m-%d %H:%M:%S` (an empty text for a lease that does not expire),
/// ready for `dhcp_leases_page_of`.  The leases are kept as they are and in
/// order.
pub fn with_local_expiry(leases: &Vec<DhcpLease>) -> (r: Vec<(DhcpLease, String)>)
    requires
        expiry_times_representable(leases@),
    ensures
        r@.len() == leases@.len(),
        forall|i: int|
            0 <= i < r@.len() ==> (#[trigger] r@[i]).0@ == leases@[i]@ && match leases@[i].expiry_time {
                None => r@[i].1@ == Seq::<char>::empty(),
                Some(secs) => is_local_text(secs, r@[i].1@),
            },
{
    let mut r: Vec<(DhcpLease, String)> = Vec::new();
    let mut i: usize = 0;
    while i < leases.len()
        invariant
            i <= leases@.len(),
            r@.len() == i,
            expiry_times_representable(leases@),
            forall|k: int|
                0 <= k < i ==> (#[trigger] r@[k]).0@ == leases@[k]@ && match leases@[k].expiry_time {
                    None => r@[k].1@ == Seq::<char>::empty(),
                    Some(secs) => is_local_text(secs, r@[k].1@),
                },
        decreases leases.len() - i,
    {
        let l = &leases[i];
        let t = match l.expiry_time {
            Some(secs) => {
                assert(leases@[i as int].expiry_time == Some(secs));
                local_clock(secs).1
            },
            None => String::new(),
        };
        r.push((l.duplicate(), t));
        i += 1;
    }
    r
}

} // verus!
