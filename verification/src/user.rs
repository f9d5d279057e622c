//! The user that an event is about.

use vstd::prelude::*;
use crate::dict::Dict;
use crate::error::{EventError, PairKind};
use crate::pair::{pair_read, read_pair};
use crate::text::{same_text, text_of, texts_of};

verus! {

/// The address of a user: left for the receiving side to fill in, or an
/// exact IPv4 or IPv6 address in its canonical text.
#[derive(Clone, Debug, PartialEq, Eq)]
pub enum IpAddress {
    Unspecified,
    Exact(String),
}

/// What an `IpAddress` stands for.
pub enum IpAddressView {
    Unspecified,
    Exact(Seq<char>),
}

impl View for IpAddress {
    type V = IpAddressView;

    open spec fn view(&self) -> IpAddressView {
        match self {
            IpAddress::Unspecified => IpAddressView::Unspecified,
            IpAddress::Exact(text) => IpAddressView::Exact(text@),
        }
    }
}

/// What an optional address stands for.
pub open spec fn address_of(address: Option<IpAddress>) -> Option<IpAddressView> {
    match address {
        Some(a) => Some(a@),
        None => None,
    }
}

/// The canonical text of the IPv4 or IPv6 address that a text denotes, or
/// `None` where the text denotes no address.
pub uninterp spec fn exact_address(text: Seq<char>) -> Option<Seq<char>>;

/// The address that a text denotes, given what it denotes as an exact
/// address: `{{auto}}` leaves the address unspecified, any other text has to
/// be an exact address.
pub open spec fn address_from(text: Seq<char>, exact: Option<Seq<char>>) -> Option<
    IpAddressView,
> {
    if text == "{{auto}}"@ {
        Some(IpAddressView::Unspecified)
    } else {
        match exact {
            Some(canonical) => Some(IpAddressView::Exact(canonical)),
            None => None,
        }
    }
}

/// The address that a text denotes.
pub open spec fn address_read(text: Seq<char>) -> Option<IpAddressView> {
    address_from(text, exact_address(text))
}

/// Calls `<sentry::protocol::IpAddress as FromStr>::from_str`, and
/// `to_string` on the exact address that it may give. That function reads
/// `{{auto}}` as the automatic address and hands any other text to the
/// standard library's address parser, failing where that fails. The parser
/// reads the text alone; the canonical text of what it finds is
/// `exact_address`.
#[verifier::external_body]
fn read_address(text: &str) -> (r: Option<IpAddress>)
    ensures
        address_of(r) == address_from(text@, exact_address(text@)),
{
    match text.parse::<sentry::protocol::IpAddress>() {
        Ok(sentry::protocol::IpAddress::Auto) => Some(IpAddress::Unspecified),
        Ok(sentry::protocol::IpAddress::Exact(address)) => Some(
            IpAddress::Exact(address.to_string()),
        ),
        Err(_) => None,
    }
}

/// Who an event is about.
#[derive(Debug)]
pub struct User {
    pub id: Option<String>,
    pub email: Option<String>,
    pub ip_address: Option<IpAddress>,
    pub username: Option<String>,
    /// Whatever was given under another key.
    pub other: Dict<String>,
}

/// What a `User` stands for.
pub struct UserView {
    pub id: Option<Seq<char>>,
    pub email: Option<Seq<char>>,
    pub ip_address: Option<IpAddressView>,
    pub username: Option<Seq<char>>,
    pub other: Map<Seq<char>, Seq<char>>,
}

impl View for User {
    type V = UserView;

    open spec fn view(&self) -> UserView {
        UserView {
            id: text_of(self.id),
            email: text_of(self.email),
            ip_address: address_of(self.ip_address),
            username: text_of(self.username),
            other: self.other@,
        }
    }
}

/// The user of whom nothing is known.
pub open spec fn nobody() -> UserView {
    UserView { id: None, email: None, ip_address: None, username: None, other: Map::empty() }
}

/// A user after one `key:value` pair. `address` is what the value denotes
/// as an address; only the key `ip_address` looks at it.
pub open spec fn user_with(
    user: UserView,
    key: Seq<char>,
    value: Seq<char>,
    address: Option<IpAddressView>,
) -> Result<UserView, EventError> {
    if key == "id"@ {
        Ok(UserView { id: Some(value), ..user })
    } else if key == "email"@ {
        Ok(UserView { email: Some(value), ..user })
    } else if key == "ip_address"@ {
        match address {
            Some(a) => Ok(UserView { ip_address: Some(a), ..user }),
            None => Err(EventError::InvalidIpAddress),
        }
    } else if key == "username"@ {
        Ok(UserView { username: Some(value), ..user })
    } else {
        Ok(UserView { other: user.other.insert(key, value), ..user })
    }
}

/// The user that a list of `key:value` texts describes, read from left to
/// right, or the error of the first text that cannot be read.
pub open spec fn user_from_pairs(pairs: Seq<Seq<char>>) -> Result<UserView, EventError>
    decreases pairs.len(),
{
    if pairs.len() == 0 {
        Ok(nobody())
    } else {
        match user_from_pairs(pairs.drop_last()) {
            Ok(user) => match pair_read(PairKind::User, pairs.last()) {
                Ok((key, value)) => user_with(user, key, value, address_read(value)),
                Err(error) => Err(error),
            },
            Err(error) => Err(error),
        }
    }
}

/// A user with the address left unspecified where none was set.
pub open spec fn with_address(user: UserView) -> UserView {
    match user.ip_address {
        Some(_) => user,
        None => UserView { ip_address: Some(IpAddressView::Unspecified), ..user },
    }
}

/// The user that stands for the one the operating system reports: that
/// name and an unspecified address. No user where it reports none.
pub open spec fn user_of_system(os_user: Option<Seq<char>>) -> Option<UserView> {
    match os_user {
        Some(name) => Some(
            UserView {
                username: Some(name),
                ip_address: Some(IpAddressView::Unspecified),
                ..nobody()
            },
        ),
        None => None,
    }
}

/// The user of an event. Where pairs are given, they alone describe the
/// user, and the address is left unspecified unless a pair set it.
/// Where none is given, the user is the one that the operating system reports.
pub open spec fn user_given(pairs: Seq<Seq<char>>, os_user: Option<Seq<char>>) -> Result<
    Option<UserView>,
    EventError,
> {
    if pairs.len() > 0 {
        match user_from_pairs(pairs) {
            Ok(user) => Ok(Some(with_address(user))),
            Err(error) => Err(error),
        }
    } else {
        Ok(user_of_system(os_user))
    }
}

/// What an optional user stands for.
pub open spec fn user_of(user: Option<User>) -> Option<UserView> {
    match user {
        Some(u) => Some(u@),
        None => None,
    }
}

impl User {
    /// The user of whom nothing is known.
    pub fn new() -> (r: User)
        ensures
            r@ == nobody(),
    {
        User { id: None, email: None, ip_address: None, username: None, other: Dict::new() }
    }
}

/// Applies one `key:value` pair to a user. The keys `id`, `email`,
/// `ip_address` and `username` set the field of that name, any other key goes
/// to `other`. `address` is what `value` denotes as an address: under the key
/// `ip_address` it becomes the user's address, and its absence is the error.
pub fn apply_user_pair(user: User, key: String, value: String, address: Option<IpAddress>) -> (r:
    Result<User, EventError>)
    ensures
        match r {
            Ok(next) => user_with(user@, key@, value@, address_of(address)) == Ok::<
                _,
                EventError,
            >(next@),
            Err(error) => user_with(user@, key@, value@, address_of(address)) == Err::<UserView, _>(
                error,
            ),
        },
{
    let mut user = user;
    if same_text(key.as_str(), "id") {
        user.id = Some(value);
    } else if same_text(key.as_str(), "email") {
        user.email = Some(value);
    } else if same_text(key.as_str(), "ip_address") {
        match address {
            Some(a) => {
                user.ip_address = Some(a);
            },
            None => {
                return Err(EventError::InvalidIpAddress);
            },
        }
    } else if same_text(key.as_str(), "username") {
        user.username = Some(value);
    } else {
        user.other.insert(key, value);
    }
    Ok(user)
}

/// The user that a list of `key:value` texts describes.
pub fn user_from(pairs: &Vec<String>) -> (r: Result<User, EventError>)
    ensures
        match r {
            Ok(user) => user_from_pairs(texts_of(pairs@)) == Ok::<_, EventError>(user@),
            Err(error) => user_from_pairs(texts_of(pairs@)) == Err::<UserView, _>(error),
        },
{
    let mut user = User::new();
    let mut at: usize = 0;
    proof {
        assert(texts_of(pairs@).take(0) =~= Seq::<Seq<char>>::empty());
    }
    while at < pairs.len()
        invariant
            at <= pairs@.len(),
            user_from_pairs(texts_of(pairs@).take(at as int)) == Ok::<_, EventError>(user@),
        decreases pairs@.len() - at,
    {
        proof {
            let upto = texts_of(pairs@).take(at + 1);
            assert(upto.drop_last() =~= texts_of(pairs@).take(at as int));
            assert(upto.last() == pairs@[at as int]@);
            if user_from_pairs(upto) is Err {
                lemma_error_stays(texts_of(pairs@), at + 1);
            }
        }
        let (key, value) = match read_pair(PairKind::User, pairs[at].as_str()) {
            Ok(pair) => pair,
            Err(error) => {
                return Err(error);
            },
        };
        let address = if same_text(key.as_str(), "ip_address") {
            read_address(value.as_str())
        } else {
            None
        };
        user = match apply_user_pair(user, key, value, address) {
            Ok(next) => next,
            Err(error) => {
                return Err(error);
            },
        };
        at += 1;
    }
    proof {
        assert(texts_of(pairs@).take(at as int) =~= texts_of(pairs@));
    }
    Ok(user)
}

/// An error among the first pairs is the error of the whole list.
proof fn lemma_error_stays(pairs: Seq<Seq<char>>, upto: int)
    requires
        0 <= upto <= pairs.len(),
        user_from_pairs(pairs.take(upto)) is Err,
    ensures
        user_from_pairs(pairs) == user_from_pairs(pairs.take(upto)),
    decreases pairs.len() - upto,
{
    if upto == pairs.len() {
        assert(pairs.take(upto) =~= pairs);
    } else {
        assert(pairs.take(upto + 1).drop_last() =~= pairs.take(upto));
        lemma_error_stays(pairs, upto + 1);
    }
}

/// The user of an event, from the pairs given for it and the name that
/// the operating system reports for the current user.
pub fn derive_user(pairs: &Vec<String>, os_user: Option<String>) -> (r: Result<
    Option<User>,
    EventError,
>)
    ensures
        match r {
            Ok(user) => user_given(texts_of(pairs@), text_of(os_user)) == Ok::<_, EventError>(
                user_of(user),
            ),
            Err(error) => user_given(texts_of(pairs@), text_of(os_user)) == Err::<
                Option<UserView>,
                _,
            >(error),
        },
{
    if pairs.len() > 0 {
        let mut user = match user_from(pairs) {
            Ok(user) => user,
            Err(error) => {
                return Err(error);
            },
        };
        if user.ip_address.is_none() {
            user.ip_address = Some(IpAddress::Unspecified);
        }
        Ok(Some(user))
    } else {
        match os_user {
            Some(name) => {
                let mut user = User::new();
                user.username = Some(name);
                user.ip_address = Some(IpAddress::Unspecified);
                Ok(Some(user))
            },
            None => Ok(None),
        }
    }
}

/// Without any pair the user is the one that the operating system
/// reports, with that name and an unspecified address, and there is no user
/// where it reports none.
pub proof fn lemma_user_defaults(os_user: Option<Seq<char>>)
    ensures
        user_given(Seq::empty(), os_user) == Ok::<_, EventError>(user_of_system(os_user)),
        os_user matches Some(name) ==> {
            &&& user_of_system(os_user) matches Some(user)
            &&& user.username == Some(name)
            &&& user.ip_address == Some(IpAddressView::Unspecified)
        },
        os_user is None ==> user_of_system(os_user) is None,
{
}

/// A user that pairs describe always has an address, and the name that
/// the operating system reports plays no part in it.
pub proof fn lemma_user_has_address(pairs: Seq<Seq<char>>, os_user: Option<Seq<char>>)
    requires
        pairs.len() > 0,
        user_given(pairs, os_user) is Ok,
    ensures
        user_given(pairs, os_user).unwrap() is Some,
        user_given(pairs, os_user).unwrap().unwrap().ip_address is Some,
        user_given(pairs, os_user) == user_given(pairs, None),
{
}

/// Pairs that do not speak of the address leave it unset.
proof fn lemma_address_untouched(pairs: Seq<Seq<char>>)
    requires
        user_from_pairs(pairs) is Ok,
        forall|i: int|
            0 <= i < pairs.len() ==> (#[trigger] pair_read(PairKind::User, pairs[i])).unwrap().0
                != "ip_address"@,
    ensures
        user_from_pairs(pairs).unwrap().ip_address is None,
    decreases pairs.len(),
{
    if pairs.len() > 0 {
        let front = pairs.drop_last();
        assert forall|i: int| 0 <= i < front.len() implies (#[trigger] pair_read(
            PairKind::User,
            front[i],
        )).unwrap().0 != "ip_address"@ by {
            assert(pair_read(PairKind::User, pairs[i]).unwrap().0 != "ip_address"@);
        }
        lemma_address_untouched(front);
        assert(pair_read(PairKind::User, pairs[pairs.len() - 1]).unwrap().0 != "ip_address"@);
    }
}

/// Where pairs are given and none of them has the key `ip_address`, the
/// user's address is the unspecified one: set, not absent.
pub proof fn lemma_address_defaulted(pairs: Seq<Seq<char>>, os_user: Option<Seq<char>>)
    requires
        pairs.len() > 0,
        user_given(pairs, os_user) is Ok,
        forall|i: int|
            0 <= i < pairs.len() ==> (#[trigger] pair_read(PairKind::User, pairs[i])).unwrap().0
                != "ip_address"@,
    ensures
        user_given(pairs, os_user).unwrap().unwrap().ip_address == Some(
            IpAddressView::Unspecified,
        ),
{
    lemma_address_untouched(pairs);
}

/// A user is described only where every pair holds a colon.
pub proof fn lemma_user_needs_colons(pairs: Seq<Seq<char>>, at: int)
    requires
        user_from_pairs(pairs) is Ok,
        0 <= at < pairs.len(),
    ensures
        pairs[at].contains(':'),
    decreases pairs.len(),
{
    if at == pairs.len() - 1 {
        crate::pair::lemma_pair_needs_colon(pairs[at]);
    } else {
        lemma_user_needs_colons(pairs.drop_last(), at);
    }
}

} // verus!
