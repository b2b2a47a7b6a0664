//! The processor description: a leaf entity of the tree, with one required
//! scalar field and a few optional ones.

use vstd::prelude::*;
use vstd::string::StringExecFns;

use crate::encode::opt_text_children_v;
use crate::encode::opt_u32_children_v;
use crate::encode::push_opt_text_child;
use crate::encode::push_opt_u32_child;
use crate::encode::push_text_child;
use crate::encode::text_elem_v;
use crate::error::res_matches;
use crate::error::SvdError;
use crate::error::SvdErrorV;
use crate::parse::optional_text;
use crate::parse::optional_u32;
use crate::parse::required_text;
use crate::parse::spec_opt_text;
use crate::parse::spec_opt_u32;
use crate::parse::text_of;
use crate::xml::elems_view;
use crate::xml::find_child_v;
use crate::xml::AttrV;
use crate::xml::ElemV;
use crate::xml::Element;

verus! {

/// The processor description.
pub struct Cpu {
    pub name: String,
    pub revision: Option<String>,
    pub endian: Option<String>,
    pub nvic_prio_bits: Option<u32>,
}

/// Spec-level model of a `Cpu`.
#[verifier::ext_equal]
pub ghost struct CpuV {
    pub name: Seq<char>,
    pub revision: Option<Seq<char>>,
    pub endian: Option<Seq<char>>,
    pub nvic_prio_bits: Option<u32>,
}

impl View for Cpu {
    type V = CpuV;

    open spec fn view(&self) -> CpuV {
        CpuV {
            name: self.name@,
            revision: match self.revision {
                Some(t) => Some(t@),
                None => None,
            },
            endian: match self.endian {
                Some(t) => Some(t@),
                None => None,
            },
            nvic_prio_bits: self.nvic_prio_bits,
        }
    }
}

/// What parsing a `cpu` element yields: the required `name`, then the
/// optional fields; a missing `name` or a malformed `nvicPrioBits` fails.
pub open spec fn spec_parse_cpu(e: ElemV) -> Result<CpuV, SvdErrorV> {
    match find_child_v(e, "name"@) {
        None => Err(SvdErrorV::MissingElement("name"@)),
        Some(nc) => match spec_opt_u32(e, "nvicPrioBits"@) {
            Err(err) => Err(err),
            Ok(npb) => Ok(CpuV {
                name: text_of(nc),
                revision: spec_opt_text(e, "revision"@),
                endian: spec_opt_text(e, "endian"@),
                nvic_prio_bits: npb,
            }),
        },
    }
}

/// The element a `Cpu` encodes to.
pub open spec fn encoded_cpu(c: CpuV) -> ElemV {
    ElemV {
        name: "cpu"@,
        attributes: Seq::<AttrV>::empty(),
        children: seq![text_elem_v("name"@, c.name)] + opt_text_children_v("revision"@, c.revision)
            + opt_text_children_v("endian"@, c.endian) + opt_u32_children_v(
            "nvicPrioBits"@,
            c.nvic_prio_bits,
        ),
        text: None,
    }
}

/// The children an optional `Cpu` contributes to the device's encoding.
pub open spec fn opt_cpu_children_v(c: Option<CpuV>) -> Seq<ElemV> {
    match c {
        Some(cv) => seq![encoded_cpu(cv)],
        None => Seq::<ElemV>::empty(),
    }
}

impl Cpu {
    /// Parses a `cpu` element.
    pub fn parse(tree: &Element) -> (r: Result<Cpu, SvdError>)
        ensures
            res_matches(r, spec_parse_cpu(tree@)),
    {
        let name = match required_text(tree, "name") {
            Ok(t) => t,
            Err(err) => return Err(err),
        };
        let revision = match optional_text("revision", tree) {
            Ok(v) => v,
            Err(err) => return Err(err),
        };
        let endian = match optional_text("endian", tree) {
            Ok(v) => v,
            Err(err) => return Err(err),
        };
        let nvic_prio_bits = match optional_u32("nvicPrioBits", tree) {
            Ok(v) => v,
            Err(err) => return Err(err),
        };
        Ok(Cpu { name, revision, endian, nvic_prio_bits })
    }

    /// Encodes this `Cpu` back into a `cpu` element.
    pub fn encode(&self) -> (r: Result<Element, SvdError>)
        ensures
            match r {
                Ok(e) => e@ == encoded_cpu(self@),
                Err(_) => false,
            },
    {
        let mut children: Vec<Element> = Vec::new();
        proof {
            assert(elems_view(children@) =~= Seq::<ElemV>::empty());
        }
        push_text_child(&mut children, "name", self.name.clone());
        proof {
            assert(elems_view(children@) =~= seq![text_elem_v("name"@, self@.name)]);
        }
        push_opt_text_child(&mut children, "revision", &self.revision);
        push_opt_text_child(&mut children, "endian", &self.endian);
        push_opt_u32_child(&mut children, "nvicPrioBits", &self.nvic_prio_bits);
        let e = Element {
            name: String::from_str("cpu"),
            attributes: Vec::new(),
            children,
            text: None,
        };
        proof {
            assert(e@.attributes =~= Seq::<AttrV>::empty());
            assert(e@.children =~= elems_view(e.children@));
            assert(e@ =~~= encoded_cpu(self@));
        }
        Ok(e)
    }
}

} // verus!
