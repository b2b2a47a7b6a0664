//! One peripheral of the device.  Every field is optional, so even an empty
//! `peripheral` element parses; the record also owns its own register
//! default overrides.

use vstd::prelude::*;
use vstd::string::StringExecFns;

use crate::defaults::encoded_defaults_children;
use crate::defaults::spec_parse_defaults;
use crate::defaults::Defaults;
use crate::defaults::DefaultsV;
use crate::encode::opt_text_children_v;
use crate::encode::opt_u32_children_v;
use crate::encode::push_opt_text_child;
use crate::encode::push_opt_u32_child;
use crate::error::res_matches;
use crate::error::SvdError;
use crate::error::SvdErrorV;
use crate::parse::optional_text;
use crate::parse::optional_u32;
use crate::parse::spec_opt_text;
use crate::parse::spec_opt_u32;
use crate::xml::elems_view;
use crate::xml::AttrV;
use crate::xml::ElemV;
use crate::xml::Element;

verus! {

/// One peripheral of the device.
pub struct Peripheral {
    pub name: Option<String>,
    pub description: Option<String>,
    pub base_address: Option<u32>,
    pub defaults: Defaults,
}

/// Spec-level model of a `Peripheral`.
#[verifier::ext_equal]
pub ghost struct PeripheralV {
    pub name: Option<Seq<char>>,
    pub description: Option<Seq<char>>,
    pub base_address: Option<u32>,
    pub defaults: DefaultsV,
}

impl View for Peripheral {
    type V = PeripheralV;

    open spec fn view(&self) -> PeripheralV {
        PeripheralV {
            name: match self.name {
                Some(t) => Some(t@),
                None => None,
            },
            description: match self.description {
                Some(t) => Some(t@),
                None => None,
            },
            base_address: self.base_address,
            defaults: self.defaults@,
        }
    }
}

/// What parsing one child of the `peripherals` container yields.  Every
/// field is optional; only a present but malformed numeric field fails.
pub open spec fn spec_parse_peripheral(e: ElemV) -> Result<PeripheralV, SvdErrorV> {
    match spec_opt_u32(e, "baseAddress"@) {
        Err(err) => Err(err),
        Ok(base_address) => match spec_parse_defaults(e) {
            Err(err) => Err(err),
            Ok(defaults) => Ok(PeripheralV {
                name: spec_opt_text(e, "name"@),
                description: spec_opt_text(e, "description"@),
                base_address,
                defaults,
            }),
        },
    }
}

/// What parsing the whole ordered child list of the `peripherals` container
/// yields: all children in order, or the first failure.
pub open spec fn spec_parse_peripherals(s: Seq<ElemV>) -> Result<Seq<PeripheralV>, SvdErrorV>
    decreases s.len(),
{
    if s.len() == 0 {
        Ok(Seq::<PeripheralV>::empty())
    } else {
        match spec_parse_peripheral(s[0]) {
            Err(err) => Err(err),
            Ok(p) => match spec_parse_peripherals(s.drop_first()) {
                Err(err) => Err(err),
                Ok(ps) => Ok(seq![p] + ps),
            },
        }
    }
}

/// A successful container parse is elementwise and keeps the order.
pub proof fn lemma_parse_peripherals_ok(s: Seq<ElemV>, ps: Seq<PeripheralV>)
    requires
        spec_parse_peripherals(s) == Ok::<_, SvdErrorV>(ps),
    ensures
        ps.len() == s.len(),
        forall|i: int|
            0 <= i < s.len() ==> #[trigger] spec_parse_peripheral(s[i]) == Ok::<_, SvdErrorV>(
                ps[i],
            ),
    decreases s.len(),
{
    if s.len() > 0 {
        let p = spec_parse_peripheral(s[0])->Ok_0;
        let rest = spec_parse_peripherals(s.drop_first())->Ok_0;
        lemma_parse_peripherals_ok(s.drop_first(), rest);
        assert(ps == seq![p] + rest);
        assert forall|i: int| 0 <= i < s.len() implies #[trigger] spec_parse_peripheral(s[i])
            == Ok::<_, SvdErrorV>(ps[i]) by {
            if i > 0 {
                assert(s.drop_first()[i - 1] == s[i]);
                assert(ps[i] == rest[i - 1]);
            } else {
                assert(ps[0] == p);
            }
        }
    }
}

/// When every child parses, the container parse succeeds with exactly those
/// results in order.
pub proof fn lemma_parse_peripherals_all_ok(s: Seq<ElemV>, ps: Seq<PeripheralV>)
    requires
        ps.len() == s.len(),
        forall|i: int|
            0 <= i < s.len() ==> #[trigger] spec_parse_peripheral(s[i]) == Ok::<_, SvdErrorV>(
                ps[i],
            ),
    ensures
        spec_parse_peripherals(s) == Ok::<_, SvdErrorV>(ps),
    decreases s.len(),
{
    if s.len() == 0 {
        assert(ps =~= Seq::<PeripheralV>::empty());
    } else {
        assert(spec_parse_peripheral(s[0]) == Ok::<_, SvdErrorV>(ps[0]));
        lemma_parse_peripherals_all_ok(s.drop_first(), ps.drop_first());
        assert(ps =~= seq![ps[0]] + ps.drop_first());
    }
}

/// When a child fails and every earlier child parses, the container parse
/// reports that first failure.
pub proof fn lemma_parse_peripherals_first_err(s: Seq<ElemV>, i: int)
    requires
        0 <= i < s.len(),
        forall|j: int| 0 <= j < i ==> #[trigger] spec_parse_peripheral(s[j]) is Ok,
        spec_parse_peripheral(s[i]) is Err,
    ensures
        spec_parse_peripherals(s) == Err::<Seq<PeripheralV>, _>(
            spec_parse_peripheral(s[i])->Err_0,
        ),
    decreases s.len(),
{
    if i == 0 {
    } else {
        assert(spec_parse_peripheral(s[0]) is Ok);
        assert forall|j: int| 0 <= j < i - 1 implies #[trigger] spec_parse_peripheral(
            s.drop_first()[j],
        ) is Ok by {
            assert(s.drop_first()[j] == s[j + 1]);
        }
        assert(s.drop_first()[i - 1] == s[i]);
        lemma_parse_peripherals_first_err(s.drop_first(), i - 1);
    }
}

/// The element a `Peripheral` encodes to.
pub open spec fn encoded_peripheral(p: PeripheralV) -> ElemV {
    ElemV {
        name: "peripheral"@,
        attributes: Seq::<AttrV>::empty(),
        children: opt_text_children_v("name"@, p.name) + opt_text_children_v(
            "description"@,
            p.description,
        ) + opt_u32_children_v("baseAddress"@, p.base_address) + encoded_defaults_children(
            p.defaults,
        ),
        text: None,
    }
}

impl Peripheral {
    /// Parses one child of the `peripherals` container.
    pub fn parse(tree: &Element) -> (r: Result<Peripheral, SvdError>)
        ensures
            res_matches(r, spec_parse_peripheral(tree@)),
    {
        let name = match optional_text("name", tree) {
            Ok(v) => v,
            Err(err) => return Err(err),
        };
        let description = match optional_text("description", tree) {
            Ok(v) => v,
            Err(err) => return Err(err),
        };
        let base_address = match optional_u32("baseAddress", tree) {
            Ok(v) => v,
            Err(err) => return Err(err),
        };
        let defaults = match Defaults::parse(tree) {
            Ok(v) => v,
            Err(err) => return Err(err),
        };
        Ok(Peripheral { name, description, base_address, defaults })
    }

    /// Encodes this `Peripheral` back into a `peripheral` element.
    pub fn encode(&self) -> (r: Result<Element, SvdError>)
        ensures
            match r {
                Ok(e) => e@ == encoded_peripheral(self@),
                Err(_) => false,
            },
    {
        let mut children: Vec<Element> = Vec::new();
        proof {
            assert(elems_view(children@) =~= Seq::<ElemV>::empty());
            assert(Seq::<ElemV>::empty() + opt_text_children_v("name"@, self@.name)
                =~= opt_text_children_v("name"@, self@.name));
        }
        push_opt_text_child(&mut children, "name", &self.name);
        push_opt_text_child(&mut children, "description", &self.description);
        push_opt_u32_child(&mut children, "baseAddress", &self.base_address);
        self.defaults.encode_into(&mut children);
        let e = Element {
            name: String::from_str("peripheral"),
            attributes: Vec::new(),
            children,
            text: None,
        };
        proof {
            assert(e@.attributes =~= Seq::<AttrV>::empty());
            assert(e@.children =~= elems_view(e.children@));
            assert(e@ =~~= encoded_peripheral(self@));
        }
        Ok(e)
    }
}

} // verus!
