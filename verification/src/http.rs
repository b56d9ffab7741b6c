//! HTTP/1.1 as the portal client speaks it: the text of a request, and a
//! response as the client holds it.

use crate::text::same_text;
use vstd::prelude::*;
use vstd::string::*;
use vstd::utf8::*;

verus! {

/// A response: status line, headers in the order received, and body.
#[derive(Debug, Clone)]
pub struct HttpResponse {
    pub version: u8,
    pub status_code: u16,
    pub reason: String,
    pub headers: Vec<(String, String)>,
    pub body: Vec<u8>,
}

/// How the server's certificate is checked on an HTTPS connection.
#[derive(Debug, Clone)]
pub enum CertVerification {
    /// Any certificate is accepted.
    Skip,
    /// The certificate must chain to the platform's trust store.
    System,
    /// The certificate must chain to the one CA certificate in this file.
    Custom(String),
    /// TLS is not available at all.
    Unavailable,
}

/// The mathematical content of a `CertVerification`.
pub enum CertView {
    Skip,
    System,
    Custom(Seq<char>),
    Unavailable,
}

impl View for CertVerification {
    type V = CertView;

    open spec fn view(&self) -> CertView {
        match self {
            CertVerification::Skip => CertView::Skip,
            CertVerification::System => CertView::System,
            CertVerification::Custom(path) => CertView::Custom(path@),
            CertVerification::Unavailable => CertView::Unavailable,
        }
    }
}

/// The policy that a `verify_cert` setting names: `skip`, `system`, or the
/// path of a CA certificate; none of them where TLS is not available.
pub open spec fn cert_policy_of(setting: Seq<char>, tls: bool) -> CertView {
    if !tls {
        CertView::Unavailable
    } else if setting == "skip"@ {
        CertView::Skip
    } else if setting == "system"@ {
        CertView::System
    } else {
        CertView::Custom(setting)
    }
}

impl CertVerification {
    /// A copy of the policy.
    pub fn duplicate(&self) -> (r: CertVerification)
        ensures
            r@ == self@,
    {
        match self {
            CertVerification::Skip => CertVerification::Skip,
            CertVerification::System => CertVerification::System,
            CertVerification::Custom(path) => CertVerification::Custom(path.clone()),
            CertVerification::Unavailable => CertVerification::Unavailable,
        }
    }

    /// Resolves a `verify_cert` setting.
    pub fn from_setting(setting: &str, tls: bool) -> (r: CertVerification)
        ensures
            r@ == cert_policy_of(setting@, tls),
    {
        if !tls {
            CertVerification::Unavailable
        } else if same_text(setting, "skip") {
            CertVerification::Skip
        } else if same_text(setting, "system") {
            CertVerification::System
        } else {
            CertVerification::Custom(String::from_str(setting))
        }
    }
}

/// The mathematical content of an `HttpResponse`.
pub struct ResponseView {
    pub version: u8,
    pub status_code: u16,
    pub reason: Seq<char>,
    pub headers: Seq<(Seq<char>, Seq<char>)>,
    pub body: Seq<u8>,
}

impl View for HttpResponse {
    type V = ResponseView;

    open spec fn view(&self) -> ResponseView {
        ResponseView {
            version: self.version,
            status_code: self.status_code,
            reason: self.reason@,
            headers: self.headers.deep_view(),
            body: self.body@,
        }
    }
}

/// Whether the form encoding leaves a byte as it is: letters, digits and
/// `*`, `-`, `.`, `_`.
pub open spec fn form_safe(b: u8) -> bool {
    ||| b == 42
    ||| b == 45
    ||| b == 46
    ||| 48 <= b <= 57
    ||| 65 <= b <= 90
    ||| b == 95
    ||| 97 <= b <= 122
}

/// The character of a hexadecimal digit, letters in upper case.
pub open spec fn hex_upper_char(d: nat) -> char
    recommends
        d < 16,
{
    if d < 10 {
        (48 + d) as u8 as char
    } else {
        (55 + d) as u8 as char
    }
}

/// The form encoding of one byte: itself where it is safe, `+` for a space,
/// else `%` and its two hexadecimal digits.
pub open spec fn form_byte(b: u8) -> Seq<char> {
    if form_safe(b) {
        seq![b as char]
    } else if b == 32 {
        seq!['+']
    } else {
        seq!['%', hex_upper_char((b / 16) as nat), hex_upper_char((b % 16) as nat)]
    }
}

/// The form encoding of a byte string, byte by byte.
pub open spec fn form_text(bytes: Seq<u8>) -> Seq<char>
    decreases bytes.len(),
{
    if bytes.len() == 0 {
        Seq::empty()
    } else {
        form_text(bytes.drop_last()) + form_byte(bytes.last())
    }
}

/// One parameter of a query: the encoded name, `=`, the encoded value.
pub open spec fn form_pair(pair: (Seq<char>, Seq<char>)) -> Seq<char> {
    form_text(encode_utf8(pair.0)) + seq!['='] + form_text(encode_utf8(pair.1))
}

/// The query string of a list of parameters: each as `form_pair` writes
/// it, with `&` between each two.
pub open spec fn query_text(pairs: Seq<(Seq<char>, Seq<char>)>) -> Seq<char>
    decreases pairs.len(),
{
    if pairs.len() == 0 {
        Seq::empty()
    } else if pairs.len() == 1 {
        form_pair(pairs[0])
    } else {
        query_text(pairs.drop_last()) + seq!['&'] + form_pair(pairs.last())
    }
}

/// `url::form_urlencoded::Serializer` on an empty `String`: `extend_pairs`,
/// then `finish`. It writes the `application/x-www-form-urlencoded` form of
/// the pairs: every byte of a name or a value that is not a letter, a digit
/// or one of `*-._` becomes `+` (a space) or `%XX` in upper-case
/// hexadecimal, a `=` stands between name and value, and a `&` before every
/// pair but the first.
#[verifier::external_body]
fn form_urlencode(pairs: &Vec<(String, String)>) -> (r: String)
    ensures
        r@ == query_text(pairs.deep_view()),
{
    url::form_urlencoded::Serializer::new(String::new()).extend_pairs(pairs).finish()
}

/// What is asked of the server: the path, and behind a `?` the query
/// string where there are parameters.
pub open spec fn target_of(path: Seq<char>, query: Option<Seq<(Seq<char>, Seq<char>)>>) -> Seq<
    char,
> {
    match query {
        Some(pairs) => path + seq!['?'] + query_text(pairs),
        None => path,
    }
}

/// The text of a request: the request line, the `Host` header, and
/// `Connection: keep-alive`. There is never a body.
pub open spec fn request_text_of(method: Seq<char>, target: Seq<char>, host: Seq<char>) -> Seq<
    char,
> {
    method + " "@ + target + " HTTP/1.1\r\nHost: "@ + host
        + "\r\nConnection: keep-alive\r\n\r\n"@
}

/// Writes the text of a request.
pub fn request_text(
    method: &str,
    path: &str,
    query: Option<&Vec<(String, String)>>,
    host: &str,
) -> (r: String)
    ensures
        r@ == request_text_of(
            method@,
            target_of(
                path@,
                match query {
                    Some(pairs) => Some(pairs.deep_view()),
                    None => None,
                },
            ),
            host@,
        ),
{
    proof {
        reveal_strlit("?");
        assert("?"@ =~= seq!['?']);
    }
    let mut r = String::from_str(method);
    r.append(" ");
    r.append(path);
    match query {
        Some(pairs) => {
            r.append("?");
            r.append(form_urlencode(pairs).as_str());
        },
        None => {},
    }
    r.append(" HTTP/1.1\r\nHost: ");
    r.append(host);
    r.append("\r\nConnection: keep-alive\r\n\r\n");
    assert(r@ =~= request_text_of(
        method@,
        target_of(
            path@,
            match query {
                Some(pairs) => Some(pairs.deep_view()),
                None => None,
            },
        ),
        host@,
    ));
    r
}

/// Whether a character may stand in a query string: a letter or a digit
/// of ASCII, or one of `*-._+%=&`.
pub open spec fn query_char(c: char) -> bool {
    ||| '0' <= c <= '9'
    ||| 'A' <= c <= 'Z'
    ||| 'a' <= c <= 'z'
    ||| c == '*'
    ||| c == '-'
    ||| c == '.'
    ||| c == '_'
    ||| c == '+'
    ||| c == '%'
    ||| c == '='
    ||| c == '&'
}

/// Whether a text is made of such characters alone.
pub open spec fn query_clean(text: Seq<char>) -> bool {
    forall|i: int| 0 <= i < text.len() ==> query_char(#[trigger] text[i])
}

/// The form encoding of any bytes is made of query characters alone.
proof fn lemma_form_text_clean(bytes: Seq<u8>)
    ensures
        query_clean(form_text(bytes)),
    decreases bytes.len(),
{
    if bytes.len() > 0 {
        lemma_form_text_clean(bytes.drop_last());
        let front = form_text(bytes.drop_last());
        let b = bytes.last();
        let back = form_byte(b);
        assert forall|i: int| 0 <= i < back.len() implies query_char(#[trigger] back[i]) by {
            let high = (b / 16) as nat;
            let low = (b % 16) as nat;
            assert(query_char(hex_upper_char(high)));
            assert(query_char(hex_upper_char(low)));
            assert(form_safe(b) ==> query_char(b as char));
        }
        assert forall|i: int| 0 <= i < form_text(bytes).len() implies query_char(
            #[trigger] form_text(bytes)[i],
        ) by {
            if i < front.len() {
                assert(form_text(bytes)[i] == front[i]);
            } else {
                assert(form_text(bytes)[i] == back[i - front.len()]);
            }
        }
    }
}

/// Whatever the parameters hold, their query string is made of letters,
/// digits and `*-._+%=&` alone: no parameter can put a space, a line break
/// or any other character of its own into the request.
pub proof fn lemma_query_text_clean(pairs: Seq<(Seq<char>, Seq<char>)>)
    ensures
        query_clean(query_text(pairs)),
    decreases pairs.len(),
{
    if pairs.len() > 0 {
        let last = pairs.last();
        let name = form_text(encode_utf8(last.0));
        let value = form_text(encode_utf8(last.1));
        lemma_form_text_clean(encode_utf8(last.0));
        lemma_form_text_clean(encode_utf8(last.1));
        let pair = form_pair(last);
        assert forall|i: int| 0 <= i < pair.len() implies query_char(#[trigger] pair[i]) by {
            if i < name.len() {
                assert(pair[i] == name[i]);
            } else if i > name.len() {
                assert(pair[i] == value[i - name.len() - 1]);
            }
        }
        if pairs.len() > 1 {
            lemma_query_text_clean(pairs.drop_last());
            let front = query_text(pairs.drop_last());
            let all = query_text(pairs);
            assert forall|i: int| 0 <= i < all.len() implies query_char(#[trigger] all[i]) by {
                if i < front.len() {
                    assert(all[i] == front[i]);
                } else if i > front.len() {
                    assert(all[i] == pair[i - front.len() - 1]);
                }
            }
        } else {
            assert(pairs[0] == last);
        }
    }
}

} // verus!
