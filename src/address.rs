use vstd::prelude::*;
use crate::views::opt_chars;

verus! {

/// One mailbox: an optional display name and an address.
#[derive(Debug, Clone)]
pub struct SingleInfo {
    pub display_name: Option<String>,
    pub addr: String,
}

/// One item of an address header: a mailbox, or a named group of mailboxes.
#[derive(Debug, Clone)]
pub enum MailAddr {
    Group(String, Vec<SingleInfo>),
    Single(SingleInfo),
}

/// A parsed address header.
#[derive(Debug, Clone)]
pub struct MailAddrList {
    pub addrs: Vec<MailAddr>,
}

/// The view of a mailbox: display name and address.
pub type SingleView = (Option<Seq<char>>, Seq<char>);

/// The view of an item of an address header.
pub enum AddrView {
    Group(Seq<char>, Seq<SingleView>),
    Single(SingleView),
}

pub open spec fn single_view(s: SingleInfo) -> SingleView {
    (opt_chars(s.display_name), s.addr@)
}

pub open spec fn addr_view(a: MailAddr) -> AddrView {
    match a {
        MailAddr::Group(name, members) => AddrView::Group(name@, members@.map_values(|m: SingleInfo| single_view(m))),
        MailAddr::Single(s) => AddrView::Single(single_view(s)),
    }
}

impl View for MailAddrList {
    type V = Seq<AddrView>;

    open spec fn view(&self) -> Seq<AddrView> {
        self.addrs@.map_values(|a: MailAddr| addr_view(a))
    }
}

/// What the address-list parser gives for a header value: the items in
/// order, or nothing when the value is malformed.
pub uninterp spec fn addrparse_of(s: Seq<char>) -> Option<Seq<AddrView>>;

/// What lowercasing gives for a string.
pub uninterp spec fn lower_of(s: Seq<char>) -> Seq<char>;

/// Relies on mailparse::addrparse: the parsed items of an address header in
/// order, or an error for a malformed one; an empty value parses to no item.
#[verifier::external_body]
pub(crate) fn parse_address_list(s: &str) -> (r: Option<MailAddrList>)
    ensures
        match r {
            Some(l) => addrparse_of(s@) == Some(l@),
            None => addrparse_of(s@).is_none(),
        },
        s@.len() == 0 ==> r.is_some() && r.unwrap()@.len() == 0,
{
    let single = |x: &mailparse::SingleInfo|
        SingleInfo { display_name: x.display_name.clone(), addr: x.addr.clone() };
    match mailparse::addrparse(s) {
        Ok(list) => Some(MailAddrList { addrs: list.iter().map(|a| match a {
            mailparse::MailAddr::Single(x) => MailAddr::Single(single(x)),
            mailparse::MailAddr::Group(g) => MailAddr::Group(g.group_name.clone(), g.addrs.iter().map(single).collect()),
        }).collect() }),
        Err(_) => None,
    }
}

/// Relies on str::to_lowercase: the lowercase form depends on the characters alone.
#[verifier::external_body]
pub(crate) fn to_lower(s: &str) -> (r: String)
    ensures
        r@ == lower_of(s@),
{
    s.to_lowercase()
}

/// The first mailbox that stands alone (not in a group), if any.
pub open spec fn first_single_of(items: Seq<AddrView>) -> Option<SingleView>
    decreases items.len(),
{
    if items.len() == 0 {
        None
    } else {
        match items[0] {
            AddrView::Single(s) => Some(s),
            AddrView::Group(_, _) => first_single_of(items.skip(1)),
        }
    }
}

/// What follows the last `@` of a string: the whole string when it holds none.
pub open spec fn after_last_at(s: Seq<char>) -> Seq<char>
    decreases s.len(),
{
    if s.len() == 0 {
        s
    } else if s.last() == '@' {
        Seq::empty()
    } else {
        after_last_at(s.drop_last()).push(s.last())
    }
}

/// The lowercase first lone address.
pub open spec fn first_address_of(items: Seq<AddrView>) -> Option<Seq<char>> {
    match first_single_of(items) {
        Some(s) => Some(lower_of(s.1)),
        None => None,
    }
}

/// The lowercase domain of the first lone address.
pub open spec fn first_domain_of(items: Seq<AddrView>) -> Option<Seq<char>> {
    match first_address_of(items) {
        Some(a) => Some(lower_of(after_last_at(a))),
        None => None,
    }
}

proof fn lemma_first_single_skip(items: Seq<AddrView>, i: int)
    requires
        0 <= i < items.len(),
        forall|k: int| 0 <= k < i ==> (#[trigger] items[k]) is Group,
    ensures
        first_single_of(items) == first_single_of(items.skip(i)),
    decreases i,
{
    if i == 0 {
        assert(items.skip(0) =~= items);
    } else {
        assert(items[0] is Group);
        assert forall|k: int| 0 <= k < i - 1 implies (#[trigger] items.skip(1)[k]) is Group by {
            assert(items.skip(1)[k] == items[k + 1]);
        }
        lemma_first_single_skip(items.skip(1), i - 1);
        assert(items.skip(1).skip(i - 1) =~= items.skip(i));
    }
}

proof fn lemma_no_single(items: Seq<AddrView>)
    requires
        forall|k: int| 0 <= k < items.len() ==> (#[trigger] items[k]) is Group,
    ensures
        first_single_of(items).is_none(),
    decreases items.len(),
{
    if items.len() > 0 {
        assert forall|k: int| 0 <= k < items.len() - 1 implies (#[trigger] items.skip(1)[k]) is Group by {
            assert(items.skip(1)[k] == items[k + 1]);
        }
        lemma_no_single(items.skip(1));
    }
}

impl SingleInfo {
    pub fn copied(&self) -> (r: SingleInfo)
        ensures
            single_view(r) == single_view(*self),
    {
        let display_name = match &self.display_name {
            Some(n) => Some(n.clone()),
            None => None,
        };
        SingleInfo { display_name, addr: self.addr.clone() }
    }
}

impl MailAddrList {
    /// The first mailbox that stands alone, groups skipped.
    pub fn first_single_mailer(&self) -> (r: Option<SingleInfo>)
        ensures
            match r {
                Some(s) => first_single_of(self@) == Some(single_view(s)),
                None => first_single_of(self@).is_none(),
            },
    {
        let mut i: usize = 0;
        while i < self.addrs.len()
            invariant
                i <= self.addrs@.len(),
                forall|k: int| 0 <= k < i ==> (#[trigger] self@[k]) is Group,
            decreases self.addrs@.len() - i,
        {
            match &self.addrs[i] {
                MailAddr::Single(x) => {
                    proof {
                        lemma_first_single_skip(self@, i as int);
                    }
                    return Some(x.copied());
                },
                MailAddr::Group(_, _) => {},
            }
            i = i + 1;
        }
        proof {
            lemma_no_single(self@);
        }
        None
    }

    /// The first lone address, lowercased.
    pub fn first_address(&self) -> (r: Option<String>)
        ensures
            opt_chars(r) == first_address_of(self@),
    {
        match self.first_single_mailer() {
            Some(first) => Some(to_lower(first.addr.as_str())),
            None => None,
        }
    }

    /// The domain of the first lone address: what follows its last `@`, lowercased.
    pub fn first_domain(&self) -> (r: Option<String>)
        ensures
            opt_chars(r) == first_domain_of(self@),
    {
        match self.first_address() {
            Some(first) => {
                let domain = suffix_after_last_at(first.as_str());
                Some(to_lower(domain.as_str()))
            },
            None => None,
        }
    }

    /// The display name of the first lone mailbox, when it has one.
    pub fn first_display_name(&self) -> (r: Option<String>)
        ensures
            opt_chars(r) == match first_single_of(self@) {
                Some(s) => s.0,
                None => None,
            },
    {
        match self.first_single_mailer() {
            Some(first) => first.display_name,
            None => None,
        }
    }
}

proof fn lemma_after_last_at_suffix(s: Seq<char>, k: int)
    requires
        0 <= k <= s.len(),
        forall|j: int| k <= j < s.len() ==> s[j] != '@',
        k == 0 || s[k - 1] == '@',
    ensures
        after_last_at(s) == s.subrange(k, s.len() as int),
    decreases s.len(),
{
    if s.len() > k {
        lemma_after_last_at_suffix(s.drop_last(), k);
        assert(s.subrange(k, s.len() as int) =~= s.drop_last().subrange(k, s.len() - 1).push(
            s.last(),
        ));
    } else if k > 0 {
        assert(s.last() == '@');
    }
}

/// What follows the last `@` of `s`, or all of `s` when it holds none.
pub fn suffix_after_last_at(s: &str) -> (r: String)
    ensures
        r@ == after_last_at(s@),
{
    let n = s.unicode_len();
    let mut k: usize = n;
    while k > 0 && s.get_char(k - 1) != '@'
        invariant
            k <= n,
            n == s@.len(),
            forall|j: int| k <= j < n ==> s@[j] != '@',
        decreases k,
    {
        k = k - 1;
    }
    proof {
        lemma_after_last_at_suffix(s@, k as int);
    }
    s.substring_char(k, n).to_string()
}

} // verus!
