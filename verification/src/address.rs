use vstd::prelude::*;

verus! {

/// An account or contract address, held as the XDR encoding of the
/// `ScVal::Address` value that the ledger uses for it. Two addresses are the
/// same address exactly when their encodings are equal.
#[derive(Clone, Debug, PartialEq, Eq, Hash)]
pub struct Address {
    pub xdr: Vec<u8>,
}

impl View for Address {
    type V = Seq<u8>;

    open spec fn view(&self) -> Seq<u8> {
        self.xdr@
    }
}

/// The view of an optional address.
pub open spec fn opt_address_view(a: Option<Address>) -> Option<Seq<u8>> {
    match a {
        Some(x) => Some(x@),
        None => None,
    }
}

impl Address {
    /// The address whose XDR encoding is `xdr`.
    pub fn from_xdr(xdr: Vec<u8>) -> (a: Address)
        ensures
            a@ == xdr@,
    {
        Address { xdr }
    }

    /// The XDR encoding of this address.
    pub fn to_xdr(&self) -> (r: &[u8])
        ensures
            r@ == self@,
    {
        self.xdr.as_slice()
    }

    /// Whether `self` and `other` are the same address.
    pub fn same_as(&self, other: &Address) -> (r: bool)
        ensures
            r == (self@ == other@),
    {
        let n = self.xdr.len();
        if n != other.xdr.len() {
            return false;
        }
        let mut i: usize = 0;
        while i < n
            invariant
                n == self.xdr.len(),
                n == other.xdr.len(),
                i <= n,
                forall|j: int| 0 <= j < i ==> self.xdr@[j] == other.xdr@[j],
            decreases n - i,
        {
            if self.xdr[i] != other.xdr[i] {
                return false;
            }
            i = i + 1;
        }
        assert(self.xdr@ =~= other.xdr@);
        true
    }

    /// A copy of this address.
    pub fn duplicate(&self) -> (r: Address)
        ensures
            r@ == self@,
    {
        let mut bytes: Vec<u8> = Vec::new();
        let n = self.xdr.len();
        let mut i: usize = 0;
        while i < n
            invariant
                n == self.xdr.len(),
                i <= n,
                bytes@ =~= self.xdr@.subrange(0, i as int),
            decreases n - i,
        {
            bytes.push(self.xdr[i]);
            i = i + 1;
        }
        assert(bytes@ =~= self.xdr@);
        Address { xdr: bytes }
    }
}

/// A copy of an optional address.
pub fn duplicate_opt_address(a: &Option<Address>) -> (r: Option<Address>)
    ensures
        opt_address_view(r) == opt_address_view(*a),
{
    match a {
        Some(x) => Some(x.duplicate()),
        None => None,
    }
}

} // verus!
