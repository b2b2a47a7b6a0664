//! The document root: orchestrates the schema-version attribute, the
//! optional metadata, the whole-document defaults, the optional `Cpu`, and
//! the ordered `Peripheral` collection; also the encode entry point that
//! reconstructs the document element with its schema attributes.

use vstd::prelude::*;
use vstd::string::StringExecFns;

use crate::cpu::encoded_cpu;
use crate::cpu::opt_cpu_children_v;
use crate::cpu::spec_parse_cpu;
use crate::cpu::Cpu;
use crate::cpu::CpuV;
use crate::defaults::spec_parse_defaults;
use crate::defaults::Defaults;
use crate::defaults::DefaultsV;
use crate::encode::opt_text_children_v;
use crate::encode::opt_u32_children_v;
use crate::encode::push_opt_text_child;
use crate::encode::push_opt_u32_child;
use crate::encode::push_text_child;
use crate::encode::text_elem_v;
use crate::error::lift_opt;
use crate::error::res_matches;
use crate::error::SvdError;
use crate::error::SvdErrorV;
use crate::parse::get_child_elem;
use crate::parse::optional;
use crate::parse::optional_text;
use crate::parse::optional_u32;
use crate::parse::required_text;
use crate::parse::spec_opt_text;
use crate::parse::spec_opt_u32;
use crate::parse::text_of;
use crate::peripheral::encoded_peripheral;
use crate::peripheral::lemma_parse_peripherals_all_ok;
use crate::peripheral::lemma_parse_peripherals_first_err;
use crate::peripheral::spec_parse_peripheral;
use crate::peripheral::spec_parse_peripherals;
use crate::peripheral::Peripheral;
use crate::peripheral::PeripheralV;
use crate::xml::attr_val;
use crate::xml::attrs_view;
use crate::xml::elems_view;
use crate::xml::find_child_v;
use crate::xml::AttrV;
use crate::xml::Attribute;
use crate::xml::ElemV;
use crate::xml::Element;

verus! {

/// The typed model of one whole document.
///
/// `width` has no parse path: it is never populated from input, only ever
/// set programmatically, and is emitted by `encode` when present.
pub struct Device {
    pub name: String,
    schema_version: String,
    pub version: Option<String>,
    pub description: Option<String>,
    pub address_unit_bits: Option<u32>,
    pub width: Option<u32>,
    pub cpu: Option<Cpu>,
    pub peripherals: Vec<Peripheral>,
    pub defaults: Defaults,
}

/// Spec-level model of a `Device`.
#[verifier::ext_equal]
pub ghost struct DeviceV {
    pub name: Seq<char>,
    pub schema_version: Seq<char>,
    pub version: Option<Seq<char>>,
    pub description: Option<Seq<char>>,
    pub address_unit_bits: Option<u32>,
    pub width: Option<u32>,
    pub cpu: Option<CpuV>,
    pub peripherals: Seq<PeripheralV>,
    pub defaults: DefaultsV,
}

impl View for Device {
    type V = DeviceV;

    closed spec fn view(&self) -> DeviceV {
        DeviceV {
            name: self.name@,
            schema_version: self.schema_version@,
            version: match self.version {
                Some(t) => Some(t@),
                None => None,
            },
            description: match self.description {
                Some(t) => Some(t@),
                None => None,
            },
            address_unit_bits: self.address_unit_bits,
            width: self.width,
            cpu: match self.cpu {
                Some(c) => Some(c@),
                None => None,
            },
            peripherals: Seq::new(self.peripherals@.len(), |i: int| self.peripherals@[i]@),
            defaults: self.defaults@,
        }
    }
}

/// What parsing the optional `cpu` child yields.
pub open spec fn spec_opt_cpu(e: ElemV) -> Result<Option<CpuV>, SvdErrorV> {
    match find_child_v(e, "cpu"@) {
        None => Ok(None),
        Some(c) => lift_opt(spec_parse_cpu(c)),
    }
}

/// What parsing a document element yields: required `name` child and
/// `schemaVersion` attribute, optional scalar fields, the optional `Cpu`,
/// the required `peripherals` container with all of its children in order,
/// and the root's own defaults.  The first failure wins.
pub open spec fn spec_parse_device(e: ElemV) -> Result<DeviceV, SvdErrorV> {
    match find_child_v(e, "name"@) {
        None => Err(SvdErrorV::MissingElement("name"@)),
        Some(nc) => match attr_val(e, "schemaVersion"@) {
            None => Err(SvdErrorV::MissingAttribute("schemaVersion"@)),
            Some(sv) => match spec_opt_u32(e, "addressUnitBits"@) {
                Err(err) => Err(err),
                Ok(address_unit_bits) => match spec_opt_cpu(e) {
                    Err(err) => Err(err),
                    Ok(cpu) => match find_child_v(e, "peripherals"@) {
                        None => Err(SvdErrorV::MissingElement("peripherals"@)),
                        Some(pc) => match spec_parse_peripherals(pc.children) {
                            Err(err) => Err(err),
                            Ok(peripherals) => match spec_parse_defaults(e) {
                                Err(err) => Err(err),
                                Ok(defaults) => Ok(DeviceV {
                                    name: text_of(nc),
                                    schema_version: sv,
                                    version: spec_opt_text(e, "version"@),
                                    description: spec_opt_text(e, "description"@),
                                    address_unit_bits,
                                    width: None,
                                    cpu,
                                    peripherals,
                                    defaults,
                                }),
                            },
                        },
                    },
                },
            },
        },
    }
}

/// The schema-location attribute value derived from the schema version.
pub open spec fn schema_location(sv: Seq<char>) -> Seq<char> {
    "CMSIS-SVD_Schema_"@ + sv + ".xsd"@
}

/// The encoded forms of the peripherals, in their original order.
pub open spec fn encoded_peripherals_children(ps: Seq<PeripheralV>) -> Seq<ElemV> {
    Seq::new(ps.len(), |i: int| encoded_peripheral(ps[i]))
}

/// The `peripherals` container element.
pub open spec fn peripherals_container_v(ps: Seq<PeripheralV>) -> ElemV {
    ElemV {
        name: "peripherals"@,
        attributes: Seq::<AttrV>::empty(),
        children: encoded_peripherals_children(ps),
        text: None,
    }
}

/// The element a `Device` encodes to: the `device` tag with the schema
/// attributes re-derived from the schema version, then `name`, the present
/// optional fields (`addressUnitBits` from its own field), `width` if set,
/// the `Cpu` if present, and the `peripherals` container.
pub open spec fn encoded_device(d: DeviceV) -> ElemV {
    ElemV {
        name: "device"@,
        attributes: seq![
            AttrV { name: "xmlns:xs"@, value: "http://www.w3.org/2001/XMLSchema-instance"@ },
            AttrV { name: "schemaVersion"@, value: d.schema_version },
            AttrV { name: "xs:noNamespaceSchemaLocation"@, value: schema_location(d.schema_version) },
        ],
        children: seq![text_elem_v("name"@, d.name)] + opt_text_children_v("version"@, d.version)
            + opt_text_children_v("description"@, d.description) + opt_u32_children_v(
            "addressUnitBits"@,
            d.address_unit_bits,
        ) + opt_u32_children_v("width"@, d.width) + opt_cpu_children_v(d.cpu) + seq![
            peripherals_container_v(d.peripherals),
        ],
        text: None,
    }
}

impl Device {
    /// The document's schema version, read from the root attributes.
    pub fn schema_version(&self) -> (r: &String)
        ensures
            r@ == self@.schema_version,
    {
        &self.schema_version
    }

    /// Parses a document element.
    #[verifier::loop_isolation(false)]
    pub fn parse(tree: &Element) -> (r: Result<Device, SvdError>)
        ensures
            res_matches(r, spec_parse_device(tree@)),
    {
        let name = match required_text(tree, "name") {
            Ok(t) => t,
            Err(err) => return Err(err),
        };
        let schema_version = match tree.get_attr("schemaVersion") {
            Some(v) => v.clone(),
            None => return Err(SvdError::MissingAttribute(String::from_str("schemaVersion"))),
        };
        let version = match optional_text("version", tree) {
            Ok(v) => v,
            Err(err) => return Err(err),
        };
        let description = match optional_text("description", tree) {
            Ok(v) => v,
            Err(err) => return Err(err),
        };
        let address_unit_bits = match optional_u32("addressUnitBits", tree) {
            Ok(v) => v,
            Err(err) => return Err(err),
        };
        let cpu = match optional("cpu", tree, Cpu::parse, Ghost(|c: ElemV| spec_parse_cpu(c))) {
            Ok(v) => v,
            Err(err) => {
                proof {
                    match find_child_v(tree@, "cpu"@) {
                        Some(c) => {
                            assert(spec_opt_cpu(tree@) == lift_opt(spec_parse_cpu(c)));
                        },
                        None => {},
                    }
                }
                return Err(err);
            },
        };
        proof {
            match find_child_v(tree@, "cpu"@) {
                Some(c) => {
                    assert(spec_opt_cpu(tree@) == lift_opt(spec_parse_cpu(c)));
                },
                None => {},
            }
        }
        let pelem = match get_child_elem(tree, "peripherals") {
            Ok(c) => c,
            Err(err) => return Err(err),
        };
        let ghost pcs = pelem@.children;
        proof {
            assert(pcs =~= elems_view(pelem.children@));
        }
        let n = pelem.children.len();
        let mut peripherals: Vec<Peripheral> = Vec::new();
        let mut i: usize = 0;
        while i < n
            invariant
                n == pelem.children.len(),
                i <= n,
                pcs == pelem@.children,
                pcs =~= elems_view(pelem.children@),
                peripherals.len() == i,
                forall|j: int|
                    0 <= j < i ==> #[trigger] spec_parse_peripheral(pcs[j]) == Ok::<
                        _,
                        SvdErrorV,
                    >(peripherals@[j]@),
            decreases n - i,
        {
            proof {
                assert(pcs[i as int] == elems_view(pelem.children@)[i as int]);
                assert(elems_view(pelem.children@)[i as int] == crate::xml::elem_view(
                    pelem.children@[i as int],
                ));
            }
            match Peripheral::parse(&pelem.children[i]) {
                Ok(p) => {
                    peripherals.push(p);
                },
                Err(err) => {
                    proof {
                        lemma_parse_peripherals_first_err(pcs, i as int);
                    }
                    return Err(err);
                },
            }
            i += 1;
        }
        proof {
            let pviews = Seq::new(peripherals@.len(), |j: int| peripherals@[j]@);
            lemma_parse_peripherals_all_ok(pcs, pviews);
        }
        let defaults = match Defaults::parse(tree) {
            Ok(v) => v,
            Err(err) => return Err(err),
        };
        let d = Device {
            name,
            schema_version,
            version,
            description,
            address_unit_bits,
            width: None,
            cpu,
            peripherals,
            defaults,
        };
        proof {
            let sd = spec_parse_device(tree@)->Ok_0;
            assert(d@.peripherals =~= sd.peripherals);
            assert(d@ =~= sd);
        }
        Ok(d)
    }

    /// Encodes this `Device` back into a document element, re-attaching the
    /// namespace declaration and schema-location attributes computed from
    /// the schema version.
    #[verifier::loop_isolation(false)]
    pub fn encode(&self) -> (r: Result<Element, SvdError>)
        ensures
            match r {
                Ok(e) => e@ == encoded_device(self@),
                Err(_) => false,
            },
    {
        let mut children: Vec<Element> = Vec::new();
        proof {
            assert(elems_view(children@) =~= Seq::<ElemV>::empty());
        }
        push_text_child(&mut children, "name", self.name.clone());
        proof {
            assert(elems_view(children@) =~= seq![text_elem_v("name"@, self@.name)]);
        }
        push_opt_text_child(&mut children, "version", &self.version);
        push_opt_text_child(&mut children, "description", &self.description);
        push_opt_u32_child(&mut children, "addressUnitBits", &self.address_unit_bits);
        push_opt_u32_child(&mut children, "width", &self.width);
        let ghost before_cpu = elems_view(children@);
        match &self.cpu {
            Some(c) => {
                let ce = match c.encode() {
                    Ok(e) => e,
                    Err(err) => return Err(err),
                };
                let ghost bc = children@;
                children.push(ce);
                proof {
                    crate::encode::lemma_elems_view_push(bc, ce);
                    assert(elems_view(children@) =~= before_cpu + opt_cpu_children_v(self@.cpu));
                }
            },
            None => {
                proof {
                    assert(elems_view(children@) =~= before_cpu + opt_cpu_children_v(self@.cpu));
                }
            },
        }
        let mut per_children: Vec<Element> = Vec::new();
        let m = self.peripherals.len();
        let mut i: usize = 0;
        while i < m
            invariant
                m == self.peripherals.len(),
                i <= m,
                per_children.len() == i,
                forall|j: int|
                    0 <= j < i ==> crate::xml::elem_view(#[trigger] per_children@[j])
                        == encoded_peripheral(self.peripherals@[j]@),
            decreases m - i,
        {
            let pe = match self.peripherals[i].encode() {
                Ok(e) => e,
                Err(err) => {
                    proof {
                        assert(false);
                    }
                    return Err(err);
                },
            };
            per_children.push(pe);
            i += 1;
        }
        let container = Element {
            name: String::from_str("peripherals"),
            attributes: Vec::new(),
            children: per_children,
            text: None,
        };
        proof {
            assert(container@.attributes =~= Seq::<AttrV>::empty());
            assert(container@.children =~= elems_view(container.children@));
            assert(container@.children =~= encoded_peripherals_children(self@.peripherals));
            assert(container@ =~~= peripherals_container_v(self@.peripherals));
        }
        let ghost before_container = elems_view(children@);
        let ghost bc2 = children@;
        children.push(container);
        proof {
            crate::encode::lemma_elems_view_push(bc2, container);
            assert(elems_view(children@) =~= before_container + seq![
                peripherals_container_v(self@.peripherals),
            ]);
        }
        let mut location = String::from_str("CMSIS-SVD_Schema_");
        location.append(self.schema_version.as_str());
        location.append(".xsd");
        let mut attributes: Vec<Attribute> = Vec::new();
        attributes.push(
            Attribute {
                name: String::from_str("xmlns:xs"),
                value: String::from_str("http://www.w3.org/2001/XMLSchema-instance"),
            },
        );
        attributes.push(
            Attribute {
                name: String::from_str("schemaVersion"),
                value: self.schema_version.clone(),
            },
        );
        attributes.push(
            Attribute { name: String::from_str("xs:noNamespaceSchemaLocation"), value: location },
        );
        let e = Element {
            name: String::from_str("device"),
            attributes,
            children,
            text: None,
        };
        proof {
            assert(e@.attributes =~= attrs_view(e.attributes@));
            assert(e@.attributes =~= encoded_device(self@).attributes);
            assert(e@.children =~= elems_view(e.children@));
            assert(e@ =~~= encoded_device(self@));
        }
        Ok(e)
    }
}

} // verus!
