//! The session's cookie jar, kept in a `cookie::CookieJar`.
use vstd::prelude::*;

verus! {

#[verifier::external_type_specification]
#[verifier::external_body]
pub struct ExCookieJar(cookie::CookieJar);

#[verifier::external_type_specification]
#[verifier::external_body]
pub struct ExCookieParseError(cookie::ParseError);

/// The cookies a jar holds: each name with its value.
pub uninterp spec fn jar_contents(jar: cookie::CookieJar) -> Map<Seq<char>, Seq<char>>;

/// The name and value that `cookie::Cookie::parse` reads from `Set-Cookie` text.
pub uninterp spec fn set_cookie_pair(header: Seq<char>) -> Option<(Seq<char>, Seq<char>)>;

/// Whether `pairs` lists the cookies of `jar`: each cookie once, in some order.
pub open spec fn lists_jar(pairs: Seq<(Seq<char>, Seq<char>)>, jar: Map<Seq<char>, Seq<char>>) -> bool {
    &&& forall|i: int| #![trigger pairs[i]]
        0 <= i < pairs.len() ==> jar.contains_key(pairs[i].0) && jar[pairs[i].0] == pairs[i].1
    &&& forall|name: Seq<char>| #[trigger] jar.contains_key(name) ==> exists|i: int|
        0 <= i < pairs.len() && #[trigger] pairs[i].0 == name
    &&& forall|i: int, j: int| 0 <= i < pairs.len() && 0 <= j < pairs.len() && i != j ==> #[trigger] pairs[i].0
        != #[trigger] pairs[j].0
}

/// A jar without cookies.
pub open spec fn no_cookies() -> Map<Seq<char>, Seq<char>> {
    Map::empty()
}

/// The pairs of a vector of strings, as views.
pub open spec fn pair_views(v: Seq<(String, String)>) -> Seq<(Seq<char>, Seq<char>)> {
    v.map_values(|p: (String, String)| (p.0@, p.1@))
}

/// Relies on `cookie::CookieJar::new`: an empty jar.
#[verifier::external_body]
pub(crate) fn new_jar() -> (r: cookie::CookieJar)
    ensures
        jar_contents(r) == no_cookies(),
{
    cookie::CookieJar::new()
}

/// Relies on `cookie::Cookie::parse`: the name and value of a `Set-Cookie`
/// header; what it reads depends on the text alone.
#[verifier::external_body]
pub(crate) fn parse_set_cookie(header: &str) -> (r: Result<(String, String), cookie::ParseError>)
    ensures
        r is Ok <==> set_cookie_pair(header@) is Some,
        r matches Ok(p) ==> set_cookie_pair(header@) == Some((p.0@, p.1@)),
{
    cookie::Cookie::parse(header).map(|c| {
        let (name, value) = c.name_value();
        (name.to_string(), value.to_string())
    })
}

/// Relies on `cookie::CookieJar::add` (of a `cookie::Cookie::new`): the
/// cookie of this name now has this value, replacing any it had. Only the
/// name and value are kept: they are all that is ever sent back.
#[verifier::external_body]
pub(crate) fn jar_add(jar: &mut cookie::CookieJar, name: String, value: String)
    ensures
        jar_contents(*final(jar)) == jar_contents(*old(jar)).insert(name@, value@),
{
    jar.add(cookie::Cookie::new(name, value))
}

/// Relies on `cookie::CookieJar::iter`: every cookie of the jar once, in no
/// stated order, each as its name and value.
#[verifier::external_body]
pub(crate) fn jar_pairs(jar: &cookie::CookieJar) -> (r: Vec<(String, String)>)
    ensures
        lists_jar(pair_views(r@), jar_contents(*jar)),
{
    jar.iter().map(|c| (c.name().to_string(), c.value().to_string())).collect()
}

/// After a `Set-Cookie` for a name, the jar lists exactly one cookie of that
/// name, holding the latest value; a value it had before is not replayed.
pub proof fn lemma_latest_cookie_replayed(
    before: Map<Seq<char>, Seq<char>>,
    name: Seq<char>,
    value: Seq<char>,
    pairs: Seq<(Seq<char>, Seq<char>)>,
)
    requires
        lists_jar(pairs, before.insert(name, value)),
    ensures
        exists|i: int| 0 <= i < pairs.len() && #[trigger] pairs[i] == (name, value),
        forall|i: int| 0 <= i < pairs.len() && #[trigger] pairs[i].0 == name ==> pairs[i].1 == value,
        forall|i: int, j: int|
            0 <= i < pairs.len() && 0 <= j < pairs.len() && #[trigger] pairs[i].0 == name && #[trigger] pairs[j].0 == name
                ==> i == j,
{
    let jar = before.insert(name, value);
    assert(jar.contains_key(name));
    let i = choose|i: int| 0 <= i < pairs.len() && #[trigger] pairs[i].0 == name;
    assert(pairs[i] == (name, value));
}

} // verus!
