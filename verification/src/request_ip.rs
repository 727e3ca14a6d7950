//! The address a request came from.
use vstd::prelude::*;
use vstd::string::*;
use crate::text::{split_trim, split_trimmed, strs_view};

verus! {

/// The client address: the peer's own, or the chain of addresses an
/// `X-Forwarded-For` header lists (the client first).
pub enum RequestIp<'s> {
    SingleIp(String),
    Forwarded(Vec<&'s str>),
}

/// Items joined by `", "`.
pub open spec fn join_with_comma(items: Seq<Seq<char>>) -> Seq<char>
    decreases items.len(),
{
    if items.len() == 0 {
        Seq::empty()
    } else if items.len() == 1 {
        items[0]
    } else {
        join_with_comma(items.drop_last()) + ", "@ + items.last()
    }
}

impl<'s> RequestIp<'s> {
    /// The addresses an `X-Forwarded-For` header lists, when there is one;
    /// the peer's address otherwise.
    pub fn new(peer_ip: String, x_forwarded_for: Option<&'s str>) -> (r: Self)
        ensures
            match x_forwarded_for {
                Some(h) => r matches RequestIp::Forwarded(v) && strs_view(v@) == split_trimmed(h@, ',')
                    && v@.len() > 0,
                None => r matches RequestIp::SingleIp(ip) && ip@ == peer_ip@,
            },
    {
        match x_forwarded_for {
            Some(h) => RequestIp::Forwarded(split_trim(h, ',')),
            None => RequestIp::SingleIp(peer_ip),
        }
    }

    pub fn create_as_single_ip(peer_ip: String) -> (r: Self)
        ensures
            r matches RequestIp::SingleIp(ip) && ip@ == peer_ip@,
    {
        RequestIp::SingleIp(peer_ip)
    }

    /// The client's own address: the peer's, or the first forwarded one.
    pub open spec fn real_ip(&self) -> Seq<char> {
        match self {
            RequestIp::SingleIp(ip) => ip@,
            RequestIp::Forwarded(v) => v@[0]@,
        }
    }

    pub open spec fn well_formed(&self) -> bool {
        self matches RequestIp::Forwarded(v) ==> v@.len() > 0
    }

    pub fn get_real_ip(&self) -> (r: &str)
        requires
            self.well_formed(),
        ensures
            r@ == self.real_ip(),
    {
        match self {
            RequestIp::SingleIp(ip) => ip.as_str(),
            RequestIp::Forwarded(v) => v[0],
        }
    }

    pub fn get_real_ip_as_string(self) -> (r: String)
        requires
            self.well_formed(),
        ensures
            r@ == self.real_ip(),
    {
        match self {
            RequestIp::SingleIp(ip) => ip,
            RequestIp::Forwarded(v) => String::from_str(v[0]),
        }
    }

    /// The address, or the forwarded chain joined by `", "`.
    pub fn to_string(&self) -> (r: String)
        ensures
            r@ == match self {
                RequestIp::SingleIp(ip) => ip@,
                RequestIp::Forwarded(v) => join_with_comma(strs_view(v@)),
            },
    {
        match self {
            RequestIp::SingleIp(ip) => ip.clone(),
            RequestIp::Forwarded(v) => {
                let mut result = String::new();
                let n = v.len();
                let mut i: usize = 0;
                while i < n
                    invariant
                        n == v@.len(),
                        i <= n,
                        result@ == join_with_comma(strs_view(v@).subrange(0, i as int)),
                    decreases n - i,
                {
                    let ghost before = result@;
                    if i > 0 {
                        result.append(", ");
                    }
                    result.append(v[i]);
                    proof {
                        let items = strs_view(v@).subrange(0, i + 1);
                        assert(items.drop_last() =~= strs_view(v@).subrange(0, i as int));
                        if i == 0 {
                            assert(before =~= Seq::<char>::empty());
                            assert(result@ =~= items[0]);
                        }
                    }
                    i = i + 1;
                }
                assert(strs_view(v@).subrange(0, n as int) =~= strs_view(v@));
                result
            },
        }
    }
}

} // verus!
