//! The application-level message shapes exchanged over the channel, and
//! their wire codecs.  Each message encodes as exactly one self-delimiting
//! unit; decoding accepts exactly the encodings this codec produces.

use vstd::prelude::*;

use crate::json::{
    dec_digits, escape_str, int_digits, is_dec_digit, parse_number, parse_string_body,
    parse_string_body_at, parse_u64_at, push_dec_u64, push_int_i8, push_quoted_str, quote_str,
};
use crate::scan::{
    concat_all, units_of, lemma_scan_field_head, lemma_scan_nested_over_digits, lemma_scan_nested_over_quoted,
    lemma_scan_nested_plain_run, lemma_scan_nested_over_string, lemma_scan_object_head,
    lemma_scan_string_lit, scan_nested, scan_string, scan_value, wf_unit,
};
use crate::text::{chars_eq_str, chars_to_string, push_chars, starts_with_str};

verus! {

/// A software package description, as served by the sample worker.
pub struct Package {
    pub name: String,
    pub version: String,
    pub description: String,
    pub size: u64,
    pub installed_size: u64,
    pub arch: String,
    pub url: String,
    pub license: String,
}

/// Mathematical shape of a [`Package`].
pub struct PackageShape {
    pub name: Seq<char>,
    pub version: Seq<char>,
    pub description: Seq<char>,
    pub size: u64,
    pub installed_size: u64,
    pub arch: Seq<char>,
    pub url: Seq<char>,
    pub license: Seq<char>,
}

impl View for Package {
    type V = PackageShape;

    open spec fn view(&self) -> PackageShape {
        PackageShape {
            name: self.name@,
            version: self.version@,
            description: self.description@,
            size: self.size,
            installed_size: self.installed_size,
            arch: self.arch@,
            url: self.url@,
            license: self.license@,
        }
    }
}

/// Messages sent from the client to the worker.
#[derive(Clone, Copy, PartialEq, Eq, Structural, Debug)]
pub enum SendyMessage {
    /// Do some things with the given integer value.
    DoThings(i8),
    /// Request the list of available packages.
    ListThePackages,
    /// Query the worker's user identity.
    WhatsYourUID,
}

/// Messages sent from the worker to the client.
pub enum RecvyMessage {
    /// Response with a processed result string.
    GotThings(String),
    /// Response with a single package.
    HereIsOnePackage(Package),
    /// Response with the worker's user identity.
    HereIsYourUID(u32),
}

/// Mathematical shape of a [`RecvyMessage`].
pub enum RecvyShape {
    GotThings(Seq<char>),
    HereIsOnePackage(PackageShape),
    HereIsYourUID(u32),
}

impl View for RecvyMessage {
    type V = RecvyShape;

    open spec fn view(&self) -> RecvyShape {
        match self {
            RecvyMessage::GotThings(s) => RecvyShape::GotThings(s@),
            RecvyMessage::HereIsOnePackage(p) => RecvyShape::HereIsOnePackage(p@),
            RecvyMessage::HereIsYourUID(u) => RecvyShape::HereIsYourUID(*u),
        }
    }
}

// ------------------------------------------------------------------
// wire encodings
// ------------------------------------------------------------------

/// Wire text of a [`Package`].
pub open spec fn encode_package_spec(p: PackageShape) -> Seq<char> {
    "{\"name\":"@ + quote_str(p.name) + ",\"version\":"@ + quote_str(p.version)
        + ",\"description\":"@ + quote_str(p.description) + ",\"size\":"@ + dec_digits(
        p.size as int,
    ) + ",\"installed_size\":"@ + dec_digits(p.installed_size as int) + ",\"arch\":"@ + quote_str(
        p.arch,
    ) + ",\"url\":"@ + quote_str(p.url) + ",\"license\":"@ + quote_str(p.license) + "}"@
}

/// Wire text of a [`SendyMessage`].
pub open spec fn encode_sendy_spec(m: SendyMessage) -> Seq<char> {
    match m {
        SendyMessage::DoThings(i) => "{\"DoThings\":"@ + int_digits(i as int) + "}"@,
        SendyMessage::ListThePackages => quote_str("ListThePackages"@),
        SendyMessage::WhatsYourUID => quote_str("WhatsYourUID"@),
    }
}

/// Wire text of a [`RecvyMessage`].
pub open spec fn encode_recvy_spec(m: RecvyShape) -> Seq<char> {
    match m {
        RecvyShape::GotThings(s) => "{\"GotThings\":"@ + quote_str(s) + "}"@,
        RecvyShape::HereIsOnePackage(p) => "{\"HereIsOnePackage\":"@ + encode_package_spec(p)
            + "}"@,
        RecvyShape::HereIsYourUID(u) => "{\"HereIsYourUID\":"@ + dec_digits(u as int) + "}"@,
    }
}

/// Appends the wire text of a [`Package`] to `out`.
pub fn push_package(out: &mut Vec<char>, p: &Package)
    ensures
        final(out)@ == old(out)@ + encode_package_spec(p@),
{
    push_chars(out, "{\"name\":");
    push_quoted_str(out, self_str(&p.name));
    push_chars(out, ",\"version\":");
    push_quoted_str(out, self_str(&p.version));
    push_chars(out, ",\"description\":");
    push_quoted_str(out, self_str(&p.description));
    push_chars(out, ",\"size\":");
    push_dec_u64(out, p.size);
    push_chars(out, ",\"installed_size\":");
    push_dec_u64(out, p.installed_size);
    push_chars(out, ",\"arch\":");
    push_quoted_str(out, self_str(&p.arch));
    push_chars(out, ",\"url\":");
    push_quoted_str(out, self_str(&p.url));
    push_chars(out, ",\"license\":");
    push_quoted_str(out, self_str(&p.license));
    push_chars(out, "}");
    proof {
        assert(out@ =~= old(out)@ + encode_package_spec(p@));
    }
}

/// The string slice of a `String`.
fn self_str(s: &String) -> (r: &str)
    ensures
        r@ == s@,
{
    s.as_str()
}

/// The wire unit of a [`SendyMessage`].
pub fn encode_sendy(m: &SendyMessage) -> (r: Vec<char>)
    ensures
        r@ == encode_sendy_spec(*m),
{
    let mut out: Vec<char> = Vec::new();
    match m {
        SendyMessage::DoThings(i) => {
            push_chars(&mut out, "{\"DoThings\":");
            push_int_i8(&mut out, *i);
            push_chars(&mut out, "}");
        },
        SendyMessage::ListThePackages => {
            push_quoted_str(&mut out, "ListThePackages");
        },
        SendyMessage::WhatsYourUID => {
            push_quoted_str(&mut out, "WhatsYourUID");
        },
    }
    proof {
        assert(out@ =~= encode_sendy_spec(*m));
    }
    out
}

/// The wire unit of a [`RecvyMessage`].
pub fn encode_recvy(m: &RecvyMessage) -> (r: Vec<char>)
    ensures
        r@ == encode_recvy_spec(m@),
{
    let mut out: Vec<char> = Vec::new();
    match m {
        RecvyMessage::GotThings(s) => {
            push_chars(&mut out, "{\"GotThings\":");
            push_quoted_str(&mut out, self_str(s));
            push_chars(&mut out, "}");
        },
        RecvyMessage::HereIsOnePackage(p) => {
            push_chars(&mut out, "{\"HereIsOnePackage\":");
            push_package(&mut out, p);
            push_chars(&mut out, "}");
        },
        RecvyMessage::HereIsYourUID(u) => {
            push_chars(&mut out, "{\"HereIsYourUID\":");
            push_dec_u64(&mut out, *u as u64);
            push_chars(&mut out, "}");
        },
    }
    proof {
        assert(out@ =~= encode_recvy_spec(m@));
    }
    out
}

// ------------------------------------------------------------------
// sample data
// ------------------------------------------------------------------

pub open spec fn sample_package_0() -> PackageShape {
    PackageShape {
        name: "firefox"@,
        version: "120.0.1"@,
        description: "Mozilla Firefox web browser"@,
        size: 50000000u64,
        installed_size: 200000000u64,
        arch: "x86_64"@,
        url: "https://www.mozilla.org/firefox"@,
        license: "MPL-2.0"@,
    }
}

pub open spec fn sample_package_1() -> PackageShape {
    PackageShape {
        name: "vlc"@,
        version: "3.0.18"@,
        description: "Multi-platform multimedia player"@,
        size: 40000000u64,
        installed_size: 120000000u64,
        arch: "x86_64"@,
        url: "https://www.videolan.org/vlc"@,
        license: "GPL-2.0"@,
    }
}

pub open spec fn sample_package_2() -> PackageShape {
    PackageShape {
        name: "gimp"@,
        version: "2.10.34"@,
        description: "GNU Image Manipulation Program"@,
        size: 80000000u64,
        installed_size: 300000000u64,
        arch: "x86_64"@,
        url: "https://www.gimp.org"@,
        license: "GPL-3.0"@,
    }
}

impl Package {
    /// The fixed sample catalogue the demonstration worker serves.
    pub fn get_sample_packages() -> (r: Vec<Package>)
        ensures
            r@.len() == 3,
            r@[0]@ == sample_package_0(),
            r@[1]@ == sample_package_1(),
            r@[2]@ == sample_package_2(),
    {
        let mut out: Vec<Package> = Vec::new();
        out.push(
            Package {
                name: String::from_str("firefox"),
                version: String::from_str("120.0.1"),
                description: String::from_str("Mozilla Firefox web browser"),
                size: 50000000,
                installed_size: 200000000,
                arch: String::from_str("x86_64"),
                url: String::from_str("https://www.mozilla.org/firefox"),
                license: String::from_str("MPL-2.0"),
            },
        );
        out.push(
            Package {
                name: String::from_str("vlc"),
                version: String::from_str("3.0.18"),
                description: String::from_str("Multi-platform multimedia player"),
                size: 40000000,
                installed_size: 120000000,
                arch: String::from_str("x86_64"),
                url: String::from_str("https://www.videolan.org/vlc"),
                license: String::from_str("GPL-2.0"),
            },
        );
        out.push(
            Package {
                name: String::from_str("gimp"),
                version: String::from_str("2.10.34"),
                description: String::from_str("GNU Image Manipulation Program"),
                size: 80000000,
                installed_size: 300000000,
                arch: String::from_str("x86_64"),
                url: String::from_str("https://www.gimp.org"),
                license: String::from_str("GPL-3.0"),
            },
        );
        out
    }
}

// ------------------------------------------------------------------
// decoding
// ------------------------------------------------------------------

/// Position just past `lit` if the text spells `lit` at `i`.
pub open spec fn expect_lit(u: Seq<char>, i: int, lit: Seq<char>) -> Option<int> {
    if 0 <= i && i + lit.len() <= u.len() && u.subrange(i, i + lit.len()) == lit {
        Some(i + lit.len())
    } else {
        None
    }
}

/// A quoted string at `i`: its decoded content and the position just past
/// its closing quote.
pub open spec fn parse_quoted(u: Seq<char>, i: int) -> Option<(Seq<char>, int)> {
    if 0 <= i < u.len() && u[i] == '"' {
        parse_string_body(u, i + 1)
    } else {
        None
    }
}

/// A decimal number at `i` that fits in a `u64`.
pub open spec fn parse_u64_spec(u: Seq<char>, i: int) -> Option<(u64, int)> {
    match parse_number(u, i) {
        Some((v, j)) => if v <= u64::MAX {
            Some((v as u64, j))
        } else {
            None
        },
        None => None,
    }
}

/// A field: the literal `lit` (brace or comma, quoted name, colon) followed
/// by a quoted string value.
pub open spec fn parse_str_field(u: Seq<char>, i: int, lit: Seq<char>) -> Option<
    (Seq<char>, int),
> {
    match expect_lit(u, i, lit) {
        Some(j) => parse_quoted(u, j),
        None => None,
    }
}

/// A field: the literal `lit` followed by a decimal number value.
pub open spec fn parse_num_field(u: Seq<char>, i: int, lit: Seq<char>) -> Option<(u64, int)> {
    match expect_lit(u, i, lit) {
        Some(j) => parse_u64_spec(u, j),
        None => None,
    }
}

/// The message a unit decodes to, if it is exactly a canonical
/// [`SendyMessage`] encoding.
pub open spec fn decode_sendy_spec(u: Seq<char>) -> Option<SendyMessage> {
    if u.len() > 0 && u[0] == '"' {
        match parse_string_body(u, 1) {
            Some((content, j)) => if j == u.len() {
                if content == "ListThePackages"@ {
                    Some(SendyMessage::ListThePackages)
                } else if content == "WhatsYourUID"@ {
                    Some(SendyMessage::WhatsYourUID)
                } else {
                    None
                }
            } else {
                None
            },
            None => None,
        }
    } else {
        match expect_lit(u, 0, "{\"DoThings\":"@) {
            Some(j) => {
                let neg = j < u.len() && u[j] == '-';
                let numpos = if neg {
                    j + 1
                } else {
                    j
                };
                match parse_number(u, numpos) {
                    Some((v, k)) => {
                        let value = if neg {
                            -v
                        } else {
                            v
                        };
                        if k + 1 == u.len() && u[k] == '}' && -128 <= value <= 127 {
                            Some(SendyMessage::DoThings(value as i8))
                        } else {
                            None
                        }
                    },
                    None => None,
                }
            },
            None => None,
        }
    }
}

/// Decodes one unit as a [`SendyMessage`], accepting exactly the canonical
/// encodings.
pub fn decode_sendy(u: &[char]) -> (r: Option<SendyMessage>)
    ensures
        r == decode_sendy_spec(u@),
{
    if u.len() > 0 && u[0] == '"' {
        let mut content: Vec<char> = Vec::new();
        match parse_string_body_at(u, 1, &mut content) {
            Some(j) => {
                if j != u.len() {
                    None
                } else if chars_eq_str(&content, "ListThePackages") {
                    Some(SendyMessage::ListThePackages)
                } else if chars_eq_str(&content, "WhatsYourUID") {
                    Some(SendyMessage::WhatsYourUID)
                } else {
                    None
                }
            },
            None => None,
        }
    } else if starts_with_str(u, 0, "{\"DoThings\":") {
        let j = "{\"DoThings\":".unicode_len();
        let neg = j < u.len() && u[j] == '-';
        let numpos = if neg {
            j + 1
        } else {
            j
        };
        match parse_u64_at(u, numpos) {
            Some((v, k)) => {
                let ulen = u.len();
                if !(k < ulen && k + 1 == ulen && u[k] == '}') {
                    None
                } else if neg && v <= 128 {
                    proof {
                        assert(-(v as int) >= -128);
                    }
                    Some(SendyMessage::DoThings((-(v as i64)) as i8))
                } else if !neg && v <= 127 {
                    Some(SendyMessage::DoThings(v as i8))
                } else {
                    None
                }
            },
            None => None,
        }
    } else {
        None
    }
}

/// Every canonical [`SendyMessage`] encoding is one complete
/// self-delimiting unit.
pub proof fn lemma_wf_encode_sendy(m: SendyMessage)
    ensures
        wf_unit(encode_sendy_spec(m)),
{
    let u = encode_sendy_spec(m);
    match m {
        SendyMessage::DoThings(i) => {
            reveal_strlit("{\"DoThings\":");
            reveal_strlit("}");
            let lit = "{\"DoThings\":"@;
            let nd = int_digits(i as int);
            assert(u.len() == 13 + nd.len());
            assert forall|k: int| 0 <= k < 12 implies u[k] == lit[k] by {}
            assert(u[0] == '{');
            assert(scan_value(u, 0) == scan_nested(u, 1, 1));
            assert(u[1] == '"');
            assert forall|k: int| 2 <= k < 10 implies u[k] != '"' && u[k] != '\\' by {}
            assert(u[10] == '"');
            lemma_scan_string_lit(u, 2, 10);
            lemma_scan_nested_over_string(u, 1, 11, 1);
            assert(crate::scan::plain_char(u[11]));
            lemma_scan_nested_plain_run(u, 11, 12, 1);
            if i < 0 {
                assert(u[12] == nd[0]);
                assert(nd[0] == '-');
                assert(crate::scan::plain_char(u[12]));
                lemma_scan_nested_plain_run(u, 12, 13, 1);
                assert(u.subrange(13, 13 + dec_digits(-(i as int)).len() as int) =~= dec_digits(
                    -(i as int),
                ));
                lemma_scan_nested_over_digits(u, 13, -(i as int), 1);
            } else {
                assert(u.subrange(12, 12 + dec_digits(i as int).len() as int) =~= dec_digits(i as int));
                lemma_scan_nested_over_digits(u, 12, i as int, 1);
            }
            assert(u[u.len() - 1] == '}');
            assert(scan_nested(u, u.len() - 1, 1) == Some(u.len() as int));
        },
        SendyMessage::ListThePackages => {
            lemma_wf_quoted("ListThePackages"@);
        },
        SendyMessage::WhatsYourUID => {
            lemma_wf_quoted("WhatsYourUID"@);
        },
    }
}

/// A quoted string is one complete self-delimiting unit.
pub proof fn lemma_wf_quoted(s: Seq<char>)
    ensures
        wf_unit(quote_str(s)),
        quote_str(s)[0] == '"',
{
    let u = quote_str(s);
    assert(u[0] == '"');
    assert(u =~= seq!['"'] + escape_str(s) + seq!['"'] + Seq::<char>::empty());
    crate::json::lemma_scan_escaped(seq!['"'], s, Seq::<char>::empty());
    assert(scan_string(u, 1) == Some(u.len() as int));
    assert(scan_value(u, 0) == Some(u.len() as int));
}

/// Decoding inverts encoding for client messages.
pub proof fn lemma_sendy_round_trip(m: SendyMessage)
    ensures
        decode_sendy_spec(encode_sendy_spec(m)) == Some(m),
{
    let u = encode_sendy_spec(m);
    match m {
        SendyMessage::DoThings(i) => {
            reveal_strlit("{\"DoThings\":");
            reveal_strlit("}");
            let lit = "{\"DoThings\":"@;
            let nd = int_digits(i as int);
            assert(u.len() == 13 + nd.len());
            assert forall|k: int| 0 <= k < 12 implies u[k] == lit[k] by {}
            assert(u[0] == '{');
            assert(u[0] != '"');
            assert(u.subrange(0, 12) =~= lit);
            assert(expect_lit(u, 0, lit) == Some(12int));
            if i < 0 {
                assert(u[12] == nd[0]);
                assert(nd[0] == '-');
                let d = dec_digits(-(i as int));
                assert(u.subrange(13, 13 + d.len() as int) =~= d);
                assert(u[13 + d.len() as int] == '}');
                crate::json::lemma_dec_digits_are_digits(-(i as int));
                crate::json::lemma_parse_number_sub(u, 13, -(i as int));
                assert(parse_number(u, 13) == Some((-(i as int), 13 + d.len() as int)));
                assert(decode_sendy_spec(u) == Some(SendyMessage::DoThings(i)));
            } else {
                let d = dec_digits(i as int);
                assert(u.subrange(12, 12 + d.len() as int) =~= d);
                assert(u[12 + d.len() as int] == '}');
                crate::json::lemma_dec_digits_are_digits(i as int);
                assert(u[12] == d[0]);
                assert(!(u[12] == '-'));
                crate::json::lemma_parse_number_sub(u, 12, i as int);
                assert(decode_sendy_spec(u) == Some(SendyMessage::DoThings(i)));
            }
        },
        SendyMessage::ListThePackages => {
            reveal_strlit("ListThePackages");
            reveal_strlit("WhatsYourUID");
            lemma_wf_quoted("ListThePackages"@);
            lemma_parse_quoted_whole("ListThePackages"@);
        },
        SendyMessage::WhatsYourUID => {
            reveal_strlit("ListThePackages");
            reveal_strlit("WhatsYourUID");
            lemma_wf_quoted("WhatsYourUID"@);
            lemma_parse_quoted_whole("WhatsYourUID"@);
            assert("WhatsYourUID"@ != "ListThePackages"@);
        },
    }
}

/// A whole-unit quoted string parses back to its own content.
pub proof fn lemma_parse_quoted_whole(s: Seq<char>)
    ensures
        parse_string_body(quote_str(s), 1) == Some((s, quote_str(s).len() as int)),
{
    let u = quote_str(s);
    assert(u.subrange(0, u.len() as int) =~= u);
    crate::json::lemma_parse_quoted_sub(u, 0, s);
}

// ------------------------------------------------------------------
// package codec
// ------------------------------------------------------------------

/// The package a region decodes to, if it is exactly a canonical
/// [`Package`] encoding; yields the shape and the position just past it.
pub open spec fn parse_package_spec(u: Seq<char>, i: int) -> Option<(PackageShape, int)> {
    match parse_str_field(u, i, "{\"name\":"@) {
        Some((name, i1)) => match parse_str_field(u, i1, ",\"version\":"@) {
            Some((version, i2)) => match parse_str_field(u, i2, ",\"description\":"@) {
                Some((description, i3)) => match parse_num_field(u, i3, ",\"size\":"@) {
                    Some((size, i4)) => match parse_num_field(u, i4, ",\"installed_size\":"@) {
                        Some((installed_size, i5)) => match parse_str_field(u, i5, ",\"arch\":"@) {
                            Some((arch, i6)) => match parse_str_field(u, i6, ",\"url\":"@) {
                                Some((url, i7)) => match parse_str_field(
                                    u,
                                    i7,
                                    ",\"license\":"@,
                                ) {
                                    Some((license, i8v)) => match expect_lit(u, i8v, "}"@) {
                                        Some(end) => Some(
                                            (
                                                PackageShape {
                                                    name,
                                                    version,
                                                    description,
                                                    size,
                                                    installed_size,
                                                    arch,
                                                    url,
                                                    license,
                                                },
                                                end,
                                            ),
                                        ),
                                        None => None,
                                    },
                                    None => None,
                                },
                                None => None,
                            },
                            None => None,
                        },
                        None => None,
                    },
                    None => None,
                },
                None => None,
            },
            None => None,
        },
        None => None,
    }
}

/// Executable twin of [`expect_lit`].
pub fn expect_lit_at(u: &[char], i: usize, lit: &str) -> (r: Option<usize>)
    ensures
        match r {
            Some(j) => expect_lit(u@, i as int, lit@) == Some(j as int),
            None => expect_lit(u@, i as int, lit@) is None,
        },
{
    let ulen: usize = u.len();
    if i > ulen {
        return None;
    }
    if starts_with_str(u, i, lit) {
        Some(i + lit.unicode_len())
    } else {
        None
    }
}

/// Executable twin of [`parse_quoted`].
pub fn parse_quoted_at(u: &[char], i: usize) -> (r: Option<(String, usize)>)
    ensures
        match r {
            Some((s, j)) => parse_quoted(u@, i as int) == Some((s@, j as int)),
            None => parse_quoted(u@, i as int) is None,
        },
{
    if i < u.len() && u[i] == '"' {
        let mut content: Vec<char> = Vec::new();
        match parse_string_body_at(u, i + 1, &mut content) {
            Some(j) => Some((chars_to_string(&content), j)),
            None => None,
        }
    } else {
        None
    }
}

/// Executable twin of [`parse_u64_spec`].
pub fn parse_u64_field_at(u: &[char], i: usize) -> (r: Option<(u64, usize)>)
    ensures
        match r {
            Some((v, j)) => parse_u64_spec(u@, i as int) == Some((v, j as int)),
            None => parse_u64_spec(u@, i as int) is None,
        },
{
    parse_u64_at(u, i)
}

/// Executable twin of [`parse_package_spec`].
pub fn parse_package_at(u: &[char], i: usize) -> (r: Option<(Package, usize)>)
    ensures
        match r {
            Some((p, j)) => parse_package_spec(u@, i as int) matches Some((shape, jj))
                && p@ == shape && jj == j as int,
            None => parse_package_spec(u@, i as int) is None,
        },
{
    let i1 = match expect_lit_at(u, i, "{\"name\":") {
        Some(j) => j,
        None => {
            return None;
        },
    };
    let (name, i1b) = match parse_quoted_at(u, i1) {
        Some(x) => x,
        None => {
            return None;
        },
    };
    let i2 = match expect_lit_at(u, i1b, ",\"version\":") {
        Some(j) => j,
        None => {
            return None;
        },
    };
    let (version, i2b) = match parse_quoted_at(u, i2) {
        Some(x) => x,
        None => {
            return None;
        },
    };
    let i3 = match expect_lit_at(u, i2b, ",\"description\":") {
        Some(j) => j,
        None => {
            return None;
        },
    };
    let (description, i3b) = match parse_quoted_at(u, i3) {
        Some(x) => x,
        None => {
            return None;
        },
    };
    let i4 = match expect_lit_at(u, i3b, ",\"size\":") {
        Some(j) => j,
        None => {
            return None;
        },
    };
    let (size, i4b) = match parse_u64_field_at(u, i4) {
        Some(x) => x,
        None => {
            return None;
        },
    };
    let i5 = match expect_lit_at(u, i4b, ",\"installed_size\":") {
        Some(j) => j,
        None => {
            return None;
        },
    };
    let (installed_size, i5b) = match parse_u64_field_at(u, i5) {
        Some(x) => x,
        None => {
            return None;
        },
    };
    let i6 = match expect_lit_at(u, i5b, ",\"arch\":") {
        Some(j) => j,
        None => {
            return None;
        },
    };
    let (arch, i6b) = match parse_quoted_at(u, i6) {
        Some(x) => x,
        None => {
            return None;
        },
    };
    let i7 = match expect_lit_at(u, i6b, ",\"url\":") {
        Some(j) => j,
        None => {
            return None;
        },
    };
    let (url, i7b) = match parse_quoted_at(u, i7) {
        Some(x) => x,
        None => {
            return None;
        },
    };
    let i8v = match expect_lit_at(u, i7b, ",\"license\":") {
        Some(j) => j,
        None => {
            return None;
        },
    };
    let (license, i8b) = match parse_quoted_at(u, i8v) {
        Some(x) => x,
        None => {
            return None;
        },
    };
    let end = match expect_lit_at(u, i8b, "}") {
        Some(j) => j,
        None => {
            return None;
        },
    };
    Some(
        (
            Package { name, version, description, size, installed_size, arch, url, license },
            end,
        ),
    )
}

/// A canonical package encoding sitting at `[i, i + len)` inside a nest is
/// stepped over whole.
#[verifier::rlimit(100)]
pub proof fn lemma_scan_over_package(t: Seq<char>, i: int, p: PackageShape, depth: int)
    requires
        depth >= 1,
        0 <= i,
        i + encode_package_spec(p).len() <= t.len(),
        t.subrange(i, i + encode_package_spec(p).len()) == encode_package_spec(p),
    ensures
        scan_nested(t, i, depth) == scan_nested(
            t,
            i + encode_package_spec(p).len(),
            depth,
        ),
{
    reveal_strlit("{\"name\":");
    reveal_strlit(",\"version\":");
    reveal_strlit(",\"description\":");
    reveal_strlit(",\"size\":");
    reveal_strlit(",\"installed_size\":");
    reveal_strlit(",\"arch\":");
    reveal_strlit(",\"url\":");
    reveal_strlit(",\"license\":");
    reveal_strlit("}");
    let e = encode_package_spec(p);
    let lit1 = "{\"name\":"@;
    let q1 = quote_str(p.name);
    let lit2 = ",\"version\":"@;
    let q2 = quote_str(p.version);
    let lit3 = ",\"description\":"@;
    let q3 = quote_str(p.description);
    let lit4 = ",\"size\":"@;
    let d4 = dec_digits(p.size as int);
    let lit5 = ",\"installed_size\":"@;
    let d5 = dec_digits(p.installed_size as int);
    let lit6 = ",\"arch\":"@;
    let q6 = quote_str(p.arch);
    let lit7 = ",\"url\":"@;
    let q7 = quote_str(p.url);
    let lit8 = ",\"license\":"@;
    let q8 = quote_str(p.license);
    let lit9 = "}"@;
    let x1 = lit1;
    let x2 = x1 + q1;
    let x3 = x2 + lit2;
    let x4 = x3 + q2;
    let x5 = x4 + lit3;
    let x6 = x5 + q3;
    let x7 = x6 + lit4;
    let x8 = x7 + d4;
    let x9 = x8 + lit5;
    let x10 = x9 + d5;
    let x11 = x10 + lit6;
    let x12 = x11 + q6;
    let x13 = x12 + lit7;
    let x14 = x13 + q7;
    let x15 = x14 + lit8;
    let x16 = x15 + q8;
    assert(e == x16 + lit9);
    crate::scan::lemma_concat_extract(t, i, x16, lit9);
    crate::scan::lemma_concat_extract(t, i, x15, q8);
    crate::scan::lemma_concat_extract(t, i, x14, lit8);
    crate::scan::lemma_concat_extract(t, i, x13, q7);
    crate::scan::lemma_concat_extract(t, i, x12, lit7);
    crate::scan::lemma_concat_extract(t, i, x11, q6);
    crate::scan::lemma_concat_extract(t, i, x10, lit6);
    crate::scan::lemma_concat_extract(t, i, x9, d5);
    crate::scan::lemma_concat_extract(t, i, x8, lit5);
    crate::scan::lemma_concat_extract(t, i, x7, d4);
    crate::scan::lemma_concat_extract(t, i, x6, lit4);
    crate::scan::lemma_concat_extract(t, i, x5, q3);
    crate::scan::lemma_concat_extract(t, i, x4, lit3);
    crate::scan::lemma_concat_extract(t, i, x3, q2);
    crate::scan::lemma_concat_extract(t, i, x2, lit2);
    crate::scan::lemma_concat_extract(t, i, x1, q1);
    let dd = depth + 1;
    // the opening brace and the "name" key
    assert(t.subrange(i, i + x1.len())[0] == lit1[0]);
    assert(t[i] == '{');
    assert(scan_nested(t, i, depth) == scan_nested(t, i + 1, dd));
    assert(t.subrange(i, i + x1.len())[1] == lit1[1]);
    assert(t[i + 1] == '"');
    assert forall|k: int| i + 2 <= k < i + 6 implies t[k] != '"' && #[trigger] t[k]
        != '\\' by {
        assert(t.subrange(i, i + x1.len())[k - i] == lit1[k - i]);
        assert(t[k] == lit1[k - i]);
    }
    assert(t.subrange(i, i + x1.len())[6] == lit1[6]);
    assert(t[i + 6] == '"');
    lemma_scan_string_lit(t, i + 2, i + 6);
    lemma_scan_nested_over_string(t, i + 1, i + 7, dd);
    assert(t.subrange(i, i + x1.len())[7] == lit1[7]);
    assert(t[i + 7] == ':');
    assert(crate::scan::plain_char(t[i + 7]));
    lemma_scan_nested_plain_run(t, i + 7, i + 8, dd);
    // the eight field values and the remaining field heads
    lemma_scan_nested_over_quoted(t, i + x1.len(), p.name, dd);
    lemma_scan_field_head(t, i + x2.len(), lit2, dd);
    lemma_scan_nested_over_quoted(t, i + x3.len(), p.version, dd);
    lemma_scan_field_head(t, i + x4.len(), lit3, dd);
    lemma_scan_nested_over_quoted(t, i + x5.len(), p.description, dd);
    lemma_scan_field_head(t, i + x6.len(), lit4, dd);
    lemma_scan_nested_over_digits(t, i + x7.len(), p.size as int, dd);
    lemma_scan_field_head(t, i + x8.len(), lit5, dd);
    lemma_scan_nested_over_digits(t, i + x9.len(), p.installed_size as int, dd);
    lemma_scan_field_head(t, i + x10.len(), lit6, dd);
    lemma_scan_nested_over_quoted(t, i + x11.len(), p.arch, dd);
    lemma_scan_field_head(t, i + x12.len(), lit7, dd);
    lemma_scan_nested_over_quoted(t, i + x13.len(), p.url, dd);
    lemma_scan_field_head(t, i + x14.len(), lit8, dd);
    lemma_scan_nested_over_quoted(t, i + x15.len(), p.license, dd);
    // the closing brace drops back to the surrounding depth
    assert(t.subrange(i + x16.len(), i + e.len())[0] == lit9[0]);
    assert(t[i + x16.len()] == '}');
    assert(scan_nested(t, i + x16.len(), dd) == scan_nested(t, i + e.len(), depth));
}

/// A canonical package encoding sitting at `[i, i + len)` parses back to
/// exactly the package that was encoded.
#[verifier::rlimit(100)]
pub proof fn lemma_parse_package_sub(t: Seq<char>, i: int, p: PackageShape)
    requires
        0 <= i,
        i + encode_package_spec(p).len() <= t.len(),
        t.subrange(i, i + encode_package_spec(p).len()) == encode_package_spec(p),
    ensures
        parse_package_spec(t, i) == Some((p, i + encode_package_spec(p).len())),
{
    reveal_strlit("{\"name\":");
    reveal_strlit(",\"version\":");
    reveal_strlit(",\"description\":");
    reveal_strlit(",\"size\":");
    reveal_strlit(",\"installed_size\":");
    reveal_strlit(",\"arch\":");
    reveal_strlit(",\"url\":");
    reveal_strlit(",\"license\":");
    reveal_strlit("}");
    let e = encode_package_spec(p);
    let lit1 = "{\"name\":"@;
    let q1 = quote_str(p.name);
    let lit2 = ",\"version\":"@;
    let q2 = quote_str(p.version);
    let lit3 = ",\"description\":"@;
    let q3 = quote_str(p.description);
    let lit4 = ",\"size\":"@;
    let d4 = dec_digits(p.size as int);
    let lit5 = ",\"installed_size\":"@;
    let d5 = dec_digits(p.installed_size as int);
    let lit6 = ",\"arch\":"@;
    let q6 = quote_str(p.arch);
    let lit7 = ",\"url\":"@;
    let q7 = quote_str(p.url);
    let lit8 = ",\"license\":"@;
    let q8 = quote_str(p.license);
    let lit9 = "}"@;
    let x1 = lit1;
    let x2 = x1 + q1;
    let x3 = x2 + lit2;
    let x4 = x3 + q2;
    let x5 = x4 + lit3;
    let x6 = x5 + q3;
    let x7 = x6 + lit4;
    let x8 = x7 + d4;
    let x9 = x8 + lit5;
    let x10 = x9 + d5;
    let x11 = x10 + lit6;
    let x12 = x11 + q6;
    let x13 = x12 + lit7;
    let x14 = x13 + q7;
    let x15 = x14 + lit8;
    let x16 = x15 + q8;
    assert(e == x16 + lit9);
    crate::scan::lemma_concat_extract(t, i, x16, lit9);
    crate::scan::lemma_concat_extract(t, i, x15, q8);
    crate::scan::lemma_concat_extract(t, i, x14, lit8);
    crate::scan::lemma_concat_extract(t, i, x13, q7);
    crate::scan::lemma_concat_extract(t, i, x12, lit7);
    crate::scan::lemma_concat_extract(t, i, x11, q6);
    crate::scan::lemma_concat_extract(t, i, x10, lit6);
    crate::scan::lemma_concat_extract(t, i, x9, d5);
    crate::scan::lemma_concat_extract(t, i, x8, lit5);
    crate::scan::lemma_concat_extract(t, i, x7, d4);
    crate::scan::lemma_concat_extract(t, i, x6, lit4);
    crate::scan::lemma_concat_extract(t, i, x5, q3);
    crate::scan::lemma_concat_extract(t, i, x4, lit3);
    crate::scan::lemma_concat_extract(t, i, x3, q2);
    crate::scan::lemma_concat_extract(t, i, x2, lit2);
    crate::scan::lemma_concat_extract(t, i, x1, q1);
    assert(expect_lit(t, i, lit1) == Some(i + 8));
    crate::json::lemma_parse_quoted_sub(t, i + x1.len(), p.name);
    assert(expect_lit(t, i + x2.len(), lit2) == Some(i + x3.len() as int));
    crate::json::lemma_parse_quoted_sub(t, i + x3.len(), p.version);
    assert(expect_lit(t, i + x4.len(), lit3) == Some(i + x5.len() as int));
    crate::json::lemma_parse_quoted_sub(t, i + x5.len(), p.description);
    assert(expect_lit(t, i + x6.len(), lit4) == Some(i + x7.len() as int));
    assert(t.subrange(i + x8.len(), i + x9.len() as int)[0] == lit5[0]);
    assert(t[i + x8.len()] == ',');
    crate::json::lemma_parse_number_sub(t, i + x7.len(), p.size as int);
    assert(parse_u64_spec(t, i + x7.len()) == Some((p.size, i + x8.len() as int)));
    assert(expect_lit(t, i + x8.len(), lit5) == Some(i + x9.len() as int));
    assert(t.subrange(i + x10.len(), i + x11.len() as int)[0] == lit6[0]);
    assert(t[i + x10.len()] == ',');
    crate::json::lemma_parse_number_sub(t, i + x9.len(), p.installed_size as int);
    assert(parse_u64_spec(t, i + x9.len()) == Some(
        (p.installed_size, i + x10.len() as int),
    ));
    assert(expect_lit(t, i + x10.len(), lit6) == Some(i + x11.len() as int));
    crate::json::lemma_parse_quoted_sub(t, i + x11.len(), p.arch);
    assert(expect_lit(t, i + x12.len(), lit7) == Some(i + x13.len() as int));
    crate::json::lemma_parse_quoted_sub(t, i + x13.len(), p.url);
    assert(expect_lit(t, i + x14.len(), lit8) == Some(i + x15.len() as int));
    crate::json::lemma_parse_quoted_sub(t, i + x15.len(), p.license);
    assert(expect_lit(t, i + x16.len(), lit9) == Some(i + e.len() as int));
}

// ------------------------------------------------------------------
// worker-message codec
// ------------------------------------------------------------------

/// The message a unit decodes to, if it is exactly a canonical
/// [`RecvyMessage`] encoding.
pub open spec fn decode_recvy_spec(u: Seq<char>) -> Option<RecvyShape> {
    if expect_lit(u, 0, "{\"GotThings\":"@) is Some {
        match parse_str_field(u, 0, "{\"GotThings\":"@) {
            Some((s, j)) => match expect_lit(u, j, "}"@) {
                Some(end) => if end == u.len() {
                    Some(RecvyShape::GotThings(s))
                } else {
                    None
                },
                None => None,
            },
            None => None,
        }
    } else if expect_lit(u, 0, "{\"HereIsOnePackage\":"@) is Some {
        match expect_lit(u, 0, "{\"HereIsOnePackage\":"@) {
            Some(j) => match parse_package_spec(u, j) {
                Some((p, k)) => match expect_lit(u, k, "}"@) {
                    Some(end) => if end == u.len() {
                        Some(RecvyShape::HereIsOnePackage(p))
                    } else {
                        None
                    },
                    None => None,
                },
                None => None,
            },
            None => None,
        }
    } else if expect_lit(u, 0, "{\"HereIsYourUID\":"@) is Some {
        match expect_lit(u, 0, "{\"HereIsYourUID\":"@) {
            Some(j) => match parse_number(u, j) {
                Some((v, k)) => if k + 1 == u.len() && u[k] == '}' && v <= u32::MAX {
                    Some(RecvyShape::HereIsYourUID(v as u32))
                } else {
                    None
                },
                None => None,
            },
            None => None,
        }
    } else {
        None
    }
}

/// Decodes one unit as a [`RecvyMessage`], accepting exactly the canonical
/// encodings.
pub fn decode_recvy(u: &[char]) -> (r: Option<RecvyMessage>)
    ensures
        match r {
            Some(m) => decode_recvy_spec(u@) == Some(m@),
            None => decode_recvy_spec(u@) is None,
        },
{
    if let Some(j) = expect_lit_at(u, 0, "{\"GotThings\":") {
        match parse_quoted_at(u, j) {
            Some((s, j2)) => {
                match expect_lit_at(u, j2, "}") {
                    Some(end) => {
                        if end == u.len() {
                            Some(RecvyMessage::GotThings(s))
                        } else {
                            None
                        }
                    },
                    None => None,
                }
            },
            None => None,
        }
    } else if let Some(j) = expect_lit_at(u, 0, "{\"HereIsOnePackage\":") {
        match parse_package_at(u, j) {
            Some((p, k)) => {
                match expect_lit_at(u, k, "}") {
                    Some(end) => {
                        if end == u.len() {
                            Some(RecvyMessage::HereIsOnePackage(p))
                        } else {
                            None
                        }
                    },
                    None => None,
                }
            },
            None => None,
        }
    } else if let Some(j) = expect_lit_at(u, 0, "{\"HereIsYourUID\":") {
        match parse_u64_at(u, j) {
            Some((v, k)) => {
                let ulen = u.len();
                if k < ulen && k + 1 == ulen && u[k] == '}' && v <= u32::MAX as u64 {
                    Some(RecvyMessage::HereIsYourUID(v as u32))
                } else {
                    None
                }
            },
            None => None,
        }
    } else {
        None
    }
}

/// Every canonical [`RecvyMessage`] encoding is one complete
/// self-delimiting unit.
pub proof fn lemma_wf_encode_recvy(m: RecvyShape)
    ensures
        wf_unit(encode_recvy_spec(m)),
{
    match m {
        RecvyShape::GotThings(s) => lemma_wf_recvy_got(s),
        RecvyShape::HereIsOnePackage(p) => lemma_wf_recvy_pkg(p),
        RecvyShape::HereIsYourUID(v) => lemma_wf_recvy_uid(v),
    }
}

#[verifier::rlimit(100)]
#[verifier::spinoff_prover]
proof fn lemma_wf_recvy_got(s: Seq<char>)
    ensures
        wf_unit(encode_recvy_spec(RecvyShape::GotThings(s))),
{
    let u = encode_recvy_spec(RecvyShape::GotThings(s));
    reveal_strlit("{\"GotThings\":");
    reveal_strlit("}");
    let lg = "{\"GotThings\":"@;
    let q = quote_str(s);
    let x2 = lg + q;
    assert(u == x2 + "}"@);
    assert(u.subrange(0, u.len() as int) =~= u);
    crate::scan::lemma_concat_extract(u, 0, x2, "}"@);
    crate::scan::lemma_concat_extract(u, 0, lg, q);
    lemma_scan_object_head(u, lg);
    lemma_scan_nested_over_quoted(u, lg.len() as int, s, 1);
    assert(u.subrange(x2.len() as int, u.len() as int)[0] == '}');
    assert(u[x2.len() as int] == '}');
    assert(scan_nested(u, x2.len() as int, 1) == Some(u.len() as int));
    assert(u[0] == lg[0]);
}

#[verifier::rlimit(100)]
#[verifier::spinoff_prover]
proof fn lemma_wf_recvy_pkg(p: PackageShape)
    ensures
        wf_unit(encode_recvy_spec(RecvyShape::HereIsOnePackage(p))),
{
    let u = encode_recvy_spec(RecvyShape::HereIsOnePackage(p));
    reveal_strlit("{\"HereIsOnePackage\":");
    reveal_strlit("}");
    let lp = "{\"HereIsOnePackage\":"@;
    let e = encode_package_spec(p);
    let x2 = lp + e;
    assert(u == x2 + "}"@);
    assert(u.subrange(0, u.len() as int) =~= u);
    crate::scan::lemma_concat_extract(u, 0, x2, "}"@);
    crate::scan::lemma_concat_extract(u, 0, lp, e);
    lemma_scan_object_head(u, lp);
    lemma_scan_over_package(u, lp.len() as int, p, 1);
    assert(u.subrange(x2.len() as int, u.len() as int)[0] == '}');
    assert(u[x2.len() as int] == '}');
    assert(scan_nested(u, x2.len() as int, 1) == Some(u.len() as int));
    assert(u[0] == lp[0]);
}

#[verifier::rlimit(100)]
#[verifier::spinoff_prover]
proof fn lemma_wf_recvy_uid(v: u32)
    ensures
        wf_unit(encode_recvy_spec(RecvyShape::HereIsYourUID(v))),
{
    let u = encode_recvy_spec(RecvyShape::HereIsYourUID(v));
    reveal_strlit("{\"HereIsYourUID\":");
    reveal_strlit("}");
    let lu = "{\"HereIsYourUID\":"@;
    let d = dec_digits(v as int);
    let x2 = lu + d;
    assert(u == x2 + "}"@);
    assert(u.subrange(0, u.len() as int) =~= u);
    crate::scan::lemma_concat_extract(u, 0, x2, "}"@);
    crate::scan::lemma_concat_extract(u, 0, lu, d);
    lemma_scan_object_head(u, lu);
    lemma_scan_nested_over_digits(u, lu.len() as int, v as int, 1);
    assert(u.subrange(x2.len() as int, u.len() as int)[0] == '}');
    assert(u[x2.len() as int] == '}');
    assert(scan_nested(u, x2.len() as int, 1) == Some(u.len() as int));
    assert(u[0] == lu[0]);
}

/// Decoding inverts encoding for worker messages.
#[verifier::rlimit(100)]
#[verifier::spinoff_prover]
pub proof fn lemma_recvy_round_trip(m: RecvyShape)
    ensures
        decode_recvy_spec(encode_recvy_spec(m)) == Some(m),
{
    let u = encode_recvy_spec(m);
    reveal_strlit("{\"GotThings\":");
    reveal_strlit("{\"HereIsOnePackage\":");
    reveal_strlit("{\"HereIsYourUID\":");
    reveal_strlit("}");
    let lg = "{\"GotThings\":"@;
    let lp = "{\"HereIsOnePackage\":"@;
    let lu = "{\"HereIsYourUID\":"@;
    match m {
        RecvyShape::GotThings(s) => {
            let q = quote_str(s);
            let x2 = lg + q;
            assert(u == x2 + "}"@);
            assert(u.subrange(0, u.len() as int) =~= u);
            crate::scan::lemma_concat_extract(u, 0, x2, "}"@);
            crate::scan::lemma_concat_extract(u, 0, lg, q);
            assert(expect_lit(u, 0, lg) == Some(lg.len() as int));
            crate::json::lemma_parse_quoted_sub(u, lg.len() as int, s);
            assert(expect_lit(u, x2.len() as int, "}"@) == Some(u.len() as int));
        },
        RecvyShape::HereIsOnePackage(p) => {
            let e = encode_package_spec(p);
            let x2 = lp + e;
            assert(u == x2 + "}"@);
            assert(u.subrange(0, u.len() as int) =~= u);
            crate::scan::lemma_concat_extract(u, 0, x2, "}"@);
            crate::scan::lemma_concat_extract(u, 0, lp, e);
            // the unit does not open like a GotThings unit
            assert(u.subrange(0, lp.len() as int)[2] == lp[2]);
            assert(u[2] == 'H');
            if expect_lit(u, 0, lg) is Some {
                assert(u.subrange(0, lg.len() as int)[2] == u[2]);
                assert(lg[2] == 'G');
                assert(false);
            }
            assert(expect_lit(u, 0, lp) == Some(lp.len() as int));
            lemma_parse_package_sub(u, lp.len() as int, p);
            assert(expect_lit(u, x2.len() as int, "}"@) == Some(u.len() as int));
        },
        RecvyShape::HereIsYourUID(v) => {
            let d = dec_digits(v as int);
            let x2 = lu + d;
            assert(u == x2 + "}"@);
            assert(u.subrange(0, u.len() as int) =~= u);
            crate::scan::lemma_concat_extract(u, 0, x2, "}"@);
            crate::scan::lemma_concat_extract(u, 0, lu, d);
            assert(u.subrange(0, lu.len() as int)[2] == lu[2]);
            assert(u[2] == 'H');
            if expect_lit(u, 0, lg) is Some {
                assert(u.subrange(0, lg.len() as int)[2] == u[2]);
                assert(lg[2] == 'G');
                assert(false);
            }
            assert(u.subrange(0, lu.len() as int)[8] == lu[8]);
            assert(u[8] == 'Y');
            if expect_lit(u, 0, lp) is Some {
                assert(u.subrange(0, lp.len() as int)[8] == u[8]);
                assert(lp[8] == 'O');
                assert(false);
            }
            assert(expect_lit(u, 0, lu) == Some(lu.len() as int));
            crate::json::lemma_dec_digits_are_digits(v as int);
            assert(u.subrange(x2.len() as int, u.len() as int)[0] == '}');
            assert(u[x2.len() as int] == '}');
            crate::json::lemma_parse_number_sub(u, lu.len() as int, v as int);
            assert(parse_number(u, lu.len() as int) == Some((v as int, x2.len() as int)));
        },
    }
}

// ------------------------------------------------------------------
// typed reads and stream laws
// ------------------------------------------------------------------

/// Pulls and decodes the next client message.  A malformed unit yields an
/// explicit error element and leaves the decoder usable, not terminal.
pub fn next_sendy(it: &mut crate::channel::IpcMessageIterator) -> (r: crate::channel::Step<
    SendyMessage,
>)
    ensures
        ({
            let before = units_of(old(it).remaining());
            match r {
                crate::channel::Step::Msg(m) => before.len() > 0 && decode_sendy_spec(before[0])
                    == Some(m) && units_of(final(it).remaining()) == before.drop_first()
                    && !final(it).terminal(),
                crate::channel::Step::Bad(e) => before.len() > 0 && decode_sendy_spec(before[0])
                    is None && e == crate::channel::IpcError::Json && units_of(
                    final(it).remaining(),
                ) == before.drop_first() && final(it).terminal() == old(it).terminal(),
                crate::channel::Step::NeedMore => !old(it).terminal() && !old(it).stream_ended()
                    && *final(it) == *old(it) && before.len() == 0,
                crate::channel::Step::End => (old(it).terminal() && *final(it) == *old(it)) || (
                !old(it).terminal() && old(it).stream_ended() && before.len() == 0 && final(it).terminal() && final(it).remaining() == old(it).remaining()),
            }
        }),
{
    match it.next_unit() {
        crate::channel::UnitStep::Item(u) => match decode_sendy(u.as_slice()) {
            Some(m) => crate::channel::Step::Msg(m),
            None => crate::channel::Step::Bad(crate::channel::IpcError::Json),
        },
        crate::channel::UnitStep::NeedMore => crate::channel::Step::NeedMore,
        crate::channel::UnitStep::End => crate::channel::Step::End,
    }
}

/// Pulls and decodes the next worker message; see [`next_sendy`].
pub fn next_recvy(it: &mut crate::channel::IpcMessageIterator) -> (r: crate::channel::Step<
    RecvyMessage,
>)
    ensures
        ({
            let before = units_of(old(it).remaining());
            match r {
                crate::channel::Step::Msg(m) => before.len() > 0 && decode_recvy_spec(before[0])
                    == Some(m@) && units_of(final(it).remaining()) == before.drop_first()
                    && !final(it).terminal(),
                crate::channel::Step::Bad(e) => before.len() > 0 && decode_recvy_spec(before[0])
                    is None && e == crate::channel::IpcError::Json && units_of(
                    final(it).remaining(),
                ) == before.drop_first() && final(it).terminal() == old(it).terminal(),
                crate::channel::Step::NeedMore => !old(it).terminal() && !old(it).stream_ended()
                    && *final(it) == *old(it) && before.len() == 0,
                crate::channel::Step::End => (old(it).terminal() && *final(it) == *old(it)) || (
                !old(it).terminal() && old(it).stream_ended() && before.len() == 0 && final(it).terminal() && final(it).remaining() == old(it).remaining()),
            }
        }),
{
    match it.next_unit() {
        crate::channel::UnitStep::Item(u) => match decode_recvy(u.as_slice()) {
            Some(m) => crate::channel::Step::Msg(m),
            None => crate::channel::Step::Bad(crate::channel::IpcError::Json),
        },
        crate::channel::UnitStep::NeedMore => crate::channel::Step::NeedMore,
        crate::channel::UnitStep::End => crate::channel::Step::End,
    }
}

/// The wire units of a sequence of client messages.
pub open spec fn encode_all_sendy(ms: Seq<SendyMessage>) -> Seq<Seq<char>> {
    ms.map_values(|m: SendyMessage| encode_sendy_spec(m))
}

/// The wire units of a sequence of worker-message shapes.
pub open spec fn encode_all_recvy(ms: Seq<RecvyShape>) -> Seq<Seq<char>> {
    ms.map_values(|m: RecvyShape| encode_recvy_spec(m))
}

/// Sending any number of client messages back to back delivers exactly
/// those messages, in order: the peer's decoder splits the stream into the
/// same units and each decodes to the message that was sent, so nothing is
/// dropped, duplicated or reordered; the sequence ends when the stream
/// does.
pub proof fn lemma_sendy_stream_exact(ms: Seq<SendyMessage>)
    ensures
        units_of(concat_all(encode_all_sendy(ms))) == encode_all_sendy(ms),
        forall|k: int|
            0 <= k < ms.len() ==> decode_sendy_spec(#[trigger] encode_all_sendy(ms)[k])
                == Some(ms[k]),
{
    let us = encode_all_sendy(ms);
    assert forall|k: int| 0 <= k < us.len() implies wf_unit(#[trigger] us[k]) by {
        lemma_wf_encode_sendy(ms[k]);
    }
    crate::scan::lemma_units_of_concat(us);
    assert forall|k: int| 0 <= k < ms.len() implies decode_sendy_spec(
        #[trigger] encode_all_sendy(ms)[k],
    ) == Some(ms[k]) by {
        lemma_sendy_round_trip(ms[k]);
    }
}

/// Sending any number of worker messages back to back delivers exactly
/// those messages, in order; see [`lemma_sendy_stream_exact`].
pub proof fn lemma_recvy_stream_exact(ms: Seq<RecvyShape>)
    ensures
        units_of(concat_all(encode_all_recvy(ms))) == encode_all_recvy(ms),
        forall|k: int|
            0 <= k < ms.len() ==> decode_recvy_spec(#[trigger] encode_all_recvy(ms)[k])
                == Some(ms[k]),
{
    let us = encode_all_recvy(ms);
    assert forall|k: int| 0 <= k < us.len() implies wf_unit(#[trigger] us[k]) by {
        lemma_wf_encode_recvy(ms[k]);
    }
    crate::scan::lemma_units_of_concat(us);
    assert forall|k: int| 0 <= k < ms.len() implies decode_recvy_spec(
        #[trigger] encode_all_recvy(ms)[k],
    ) == Some(ms[k]) by {
        lemma_recvy_round_trip(ms[k]);
    }
}

} // verus!
