//! The element tree the mapper reads and writes: a name, an ordered attribute
//! list, ordered children and optional text, together with its spec-level
//! model (`ElemV`) and the child/attribute lookup functions every parser is
//! specified against.

use vstd::prelude::*;
use vstd::string::StrSliceExecFns;
use vstd::string::StringExecFns;

verus! {

/// One attribute of an element.
pub struct Attribute {
    pub name: String,
    pub value: String,
}

/// An XML element, fully materialized.  Lookup of a named child returns the
/// first child carrying that name.
pub struct Element {
    pub name: String,
    pub attributes: Vec<Attribute>,
    pub children: Vec<Element>,
    pub text: Option<String>,
}

/// Spec-level model of an attribute.
#[verifier::ext_equal]
pub ghost struct AttrV {
    pub name: Seq<char>,
    pub value: Seq<char>,
}

/// Spec-level model of an element.
#[verifier::ext_equal]
pub ghost struct ElemV {
    pub name: Seq<char>,
    pub attributes: Seq<AttrV>,
    pub children: Seq<ElemV>,
    pub text: Option<Seq<char>>,
}

pub open spec fn attrs_view(s: Seq<Attribute>) -> Seq<AttrV> {
    Seq::new(s.len(), |i: int| AttrV { name: s[i].name@, value: s[i].value@ })
}

pub open spec fn elem_view(e: Element) -> ElemV
    decreases e,
{
    ElemV {
        name: e.name@,
        attributes: attrs_view(e.attributes@),
        children: Seq::new(
            e.children@.len(),
            |i: int|
                if 0 <= i < e.children@.len() {
                    elem_view(e.children@[i])
                } else {
                    arbitrary()
                },
        ),
        text: match e.text {
            Some(t) => Some(t@),
            None => None,
        },
    }
}

/// The models of a sequence of elements, elementwise.
pub open spec fn elems_view(s: Seq<Element>) -> Seq<ElemV> {
    Seq::new(s.len(), |i: int| elem_view(s[i]))
}

impl View for Attribute {
    type V = AttrV;

    open spec fn view(&self) -> AttrV {
        AttrV { name: self.name@, value: self.value@ }
    }
}

impl View for Element {
    type V = ElemV;

    open spec fn view(&self) -> ElemV {
        elem_view(*self)
    }
}

pub broadcast proof fn lemma_elem_view_children(e: Element)
    ensures
        (#[trigger] elem_view(e)).children =~= elems_view(e.children@),
{
}

/// First element of `s` named `name`, if any.
pub open spec fn find_in_v(s: Seq<ElemV>, name: Seq<char>) -> Option<ElemV>
    decreases s.len(),
{
    if s.len() <= 0 {
        None
    } else if s[0].name == name {
        Some(s[0])
    } else {
        find_in_v(s.drop_first(), name)
    }
}

/// First child of `e` named `name`, if any.
pub open spec fn find_child_v(e: ElemV, name: Seq<char>) -> Option<ElemV> {
    find_in_v(e.children, name)
}

/// Value of the first attribute of `s` named `name`, if any.
pub open spec fn find_attr_in(s: Seq<AttrV>, name: Seq<char>) -> Option<Seq<char>>
    decreases s.len(),
{
    if s.len() <= 0 {
        None
    } else if s[0].name == name {
        Some(s[0].value)
    } else {
        find_attr_in(s.drop_first(), name)
    }
}

/// Value of the first attribute of `e` named `name`, if any.
pub open spec fn attr_val(e: ElemV, name: Seq<char>) -> Option<Seq<char>> {
    find_attr_in(e.attributes, name)
}

/// Character-for-character string comparison.
pub fn str_eq(a: &str, b: &str) -> (r: bool)
    ensures
        r == (a@ == b@),
{
    let alen = a.unicode_len();
    let blen = b.unicode_len();
    if alen != blen {
        return false;
    }
    let mut i: usize = 0;
    while i < alen
        invariant
            i <= alen,
            alen == a@.len(),
            blen == b@.len(),
            alen == blen,
            forall|j: int| 0 <= j < i ==> a@[j] == b@[j],
        decreases alen - i,
    {
        if a.get_char(i) != b.get_char(i) {
            return false;
        }
        i += 1;
    }
    proof {
        assert(a@ =~= b@);
    }
    true
}

impl Element {
    /// The first child named `name`, or `None` if the element has no such
    /// child.
    pub fn get_child<'a>(&'a self, name: &str) -> (r: Option<&'a Element>)
        ensures
            match r {
                Some(c) => find_child_v(self@, name@) == Some(c@),
                None => find_child_v(self@, name@) is None,
            },
    {
        broadcast use lemma_elem_view_children;

        let ghost cs = self@.children;
        proof {
            assert(cs.skip(0) =~= cs);
        }
        let n = self.children.len();
        let mut i: usize = 0;
        while i < n
            invariant
                n == self.children.len(),
                i <= n,
                cs =~= elems_view(self.children@),
                cs == self@.children,
                find_in_v(cs.skip(i as int), name@) == find_in_v(cs, name@),
            decreases n - i,
        {
            let c = &self.children[i];
            let matched = str_eq(c.name.as_str(), name);
            proof {
                assert(cs.skip(i as int)[0] == cs[i as int]);
                assert(cs[i as int] == elem_view(self.children@[i as int]));
            }
            if matched {
                proof {
                    assert(find_in_v(cs.skip(i as int), name@) == Some(cs[i as int]));
                }
                return Some(c);
            }
            proof {
                assert(cs.skip(i as int).drop_first() =~= cs.skip(i as int + 1));
            }
            i += 1;
        }
        proof {
            assert(cs.skip(n as int) =~= Seq::<ElemV>::empty());
        }
        None
    }

    /// The value of the first attribute named `name`, or `None` if the
    /// element has no such attribute.
    pub fn get_attr<'a>(&'a self, name: &str) -> (r: Option<&'a String>)
        ensures
            match r {
                Some(v) => attr_val(self@, name@) == Some(v@),
                None => attr_val(self@, name@) is None,
            },
    {
        let ghost attrs = self@.attributes;
        proof {
            assert(attrs.skip(0) =~= attrs);
        }
        let n = self.attributes.len();
        let mut i: usize = 0;
        while i < n
            invariant
                n == self.attributes.len(),
                i <= n,
                attrs =~= attrs_view(self.attributes@),
                attrs == self@.attributes,
                find_attr_in(attrs.skip(i as int), name@) == find_attr_in(attrs, name@),
            decreases n - i,
        {
            let a = &self.attributes[i];
            let matched = str_eq(a.name.as_str(), name);
            proof {
                assert(attrs.skip(i as int)[0] == attrs[i as int]);
            }
            if matched {
                return Some(&a.value);
            }
            proof {
                assert(attrs.skip(i as int).drop_first() =~= attrs.skip(i as int + 1));
            }
            i += 1;
        }
        proof {
            assert(attrs.skip(n as int) =~= Seq::<AttrV>::empty());
        }
        None
    }
}

/// A fresh element with the given tag name and text, no attributes and no
/// children.
pub fn new_element(name: &str, text: Option<String>) -> (r: Element)
    ensures
        r@ == (ElemV {
            name: name@,
            attributes: Seq::<AttrV>::empty(),
            children: Seq::<ElemV>::empty(),
            text: match text {
                Some(t) => Some(t@),
                None => None::<Seq<char>>,
            },
        }),
{
    let r = Element { name: String::from_str(name), attributes: Vec::new(), children: Vec::new(), text };
    proof {
        assert(r@.attributes =~= Seq::<AttrV>::empty());
        assert(r@.children =~= Seq::<ElemV>::empty());
        assert(r@ =~= (ElemV {
            name: name@,
            attributes: Seq::<AttrV>::empty(),
            children: Seq::<ElemV>::empty(),
            text: match r.text {
                Some(t) => Some(t@),
                None => None::<Seq<char>>,
            },
        }));
    }
    r
}

} // verus!
