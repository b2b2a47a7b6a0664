//! The guarantees that hold across `parse` and `encode`: what a successful
//! parse must have found, which error each malformed document yields, and
//! that encoding a parsed device and re-parsing it gives the same device in
//! every field the model tracks from input.

use vstd::prelude::*;

use crate::cpu::encoded_cpu;
use crate::cpu::spec_parse_cpu;
use crate::cpu::CpuV;
use crate::defaults::empty_defaults;
use crate::defaults::encoded_defaults_children;
use crate::defaults::spec_parse_defaults;
use crate::defaults::DefaultsV;
use crate::device::encoded_device;
use crate::device::peripherals_container_v;
use crate::device::spec_opt_cpu;
use crate::device::spec_parse_device;
use crate::device::DeviceV;
use crate::encode::opt_text_children_v;
use crate::encode::opt_u32_children_v;
use crate::encode::text_elem_v;
use crate::error::SvdErrorV;
use crate::parse::spec_opt_text;
use crate::parse::spec_opt_u32;
use crate::parse::text_of;
use crate::peripheral::encoded_peripheral;
use crate::peripheral::lemma_parse_peripherals_all_ok;
use crate::peripheral::lemma_parse_peripherals_ok;
use crate::peripheral::spec_parse_peripheral;
use crate::peripheral::spec_parse_peripherals;
use crate::peripheral::PeripheralV;
use crate::text::dec_str;
use crate::text::lemma_dec_str_val;
use crate::text::lemma_trim_ws_idempotent;
use crate::text::lemma_trim_ws_no_ws;
use crate::text::trim_ws;
use crate::text::u32_of_text;
use crate::xml::attr_val;
use crate::xml::find_attr_in;
use crate::xml::find_child_v;
use crate::xml::find_in_v;
use crate::xml::AttrV;
use crate::xml::ElemV;

verus! {

/// A text field as a parse leaves it: trimming it again changes nothing.
pub open spec fn trimmed(s: Seq<char>) -> bool {
    s == trim_ws(s)
}

pub open spec fn opt_trimmed(o: Option<Seq<char>>) -> bool {
    match o {
        Some(t) => trimmed(t),
        None => true,
    }
}

/// The shape every parsed `Defaults` has.
pub open spec fn defaults_parsed_form(d: DefaultsV) -> bool {
    opt_trimmed(d.access) && opt_trimmed(d.protection)
}

/// The shape every parsed `Cpu` has.
pub open spec fn cpu_parsed_form(c: CpuV) -> bool {
    trimmed(c.name) && opt_trimmed(c.revision) && opt_trimmed(c.endian)
}

/// The shape every parsed `Peripheral` has.
pub open spec fn peripheral_parsed_form(p: PeripheralV) -> bool {
    opt_trimmed(p.name) && opt_trimmed(p.description) && defaults_parsed_form(p.defaults)
}

/// The shape every parsed `Device` has.
pub open spec fn device_parsed_form(d: DeviceV) -> bool {
    &&& trimmed(d.name)
    &&& opt_trimmed(d.version)
    &&& opt_trimmed(d.description)
    &&& match d.cpu {
        Some(c) => cpu_parsed_form(c),
        None => true,
    }
    &&& forall|i: int|
        0 <= i < d.peripherals.len() ==> peripheral_parsed_form(#[trigger] d.peripherals[i])
    &&& defaults_parsed_form(d.defaults)
    &&& d.width is None
}

proof fn lemma_text_of_trimmed(c: ElemV)
    ensures
        trimmed(text_of(c)),
{
    match c.text {
        Some(t) => {
            lemma_trim_ws_idempotent(t);
        },
        None => {
            assert(trim_ws(Seq::<char>::empty()) == Seq::<char>::empty());
        },
    }
}

proof fn lemma_opt_text_trimmed(e: ElemV, name: Seq<char>)
    ensures
        opt_trimmed(spec_opt_text(e, name)),
{
    match find_child_v(e, name) {
        Some(c) => {
            lemma_text_of_trimmed(c);
        },
        None => {},
    }
}

proof fn lemma_defaults_parsed_form(e: ElemV, d: DefaultsV)
    requires
        spec_parse_defaults(e) == Ok::<_, SvdErrorV>(d),
    ensures
        defaults_parsed_form(d),
{
    lemma_opt_text_trimmed(e, "access"@);
    lemma_opt_text_trimmed(e, "protection"@);
}

proof fn lemma_cpu_parsed_form(e: ElemV, c: CpuV)
    requires
        spec_parse_cpu(e) == Ok::<_, SvdErrorV>(c),
    ensures
        cpu_parsed_form(c),
{
    let nc = find_child_v(e, "name"@)->0;
    lemma_text_of_trimmed(nc);
    lemma_opt_text_trimmed(e, "revision"@);
    lemma_opt_text_trimmed(e, "endian"@);
}

proof fn lemma_peripheral_parsed_form(e: ElemV, p: PeripheralV)
    requires
        spec_parse_peripheral(e) == Ok::<_, SvdErrorV>(p),
    ensures
        peripheral_parsed_form(p),
{
    lemma_opt_text_trimmed(e, "name"@);
    lemma_opt_text_trimmed(e, "description"@);
    lemma_defaults_parsed_form(e, p.defaults);
}

/// Every device a parse yields has the parsed shape: its text fields are
/// trim-fixpoints and its `width` is unset.
pub proof fn lemma_device_parsed_form(t: ElemV, d: DeviceV)
    requires
        spec_parse_device(t) == Ok::<_, SvdErrorV>(d),
    ensures
        device_parsed_form(d),
{
    let nc = find_child_v(t, "name"@)->0;
    lemma_text_of_trimmed(nc);
    lemma_opt_text_trimmed(t, "version"@);
    lemma_opt_text_trimmed(t, "description"@);
    match find_child_v(t, "cpu"@) {
        Some(c) => {
            lemma_cpu_parsed_form(c, d.cpu->0);
        },
        None => {},
    }
    let pc = find_child_v(t, "peripherals"@)->0;
    lemma_parse_peripherals_ok(pc.children, d.peripherals);
    assert forall|i: int| 0 <= i < d.peripherals.len() implies peripheral_parsed_form(
        #[trigger] d.peripherals[i],
    ) by {
        assert(spec_parse_peripheral(pc.children[i]) == Ok::<_, SvdErrorV>(d.peripherals[i]));
        lemma_peripheral_parsed_form(pc.children[i], d.peripherals[i]);
    }
    lemma_defaults_parsed_form(t, d.defaults);
}

/// The element an optional text field's reparse finds.
pub open spec fn opt_text_elem(name: Seq<char>, v: Option<Seq<char>>) -> Option<ElemV> {
    match v {
        Some(t) => Some(text_elem_v(name, t)),
        None => None,
    }
}

/// The element an optional unsigned-integer field's reparse finds.
pub open spec fn opt_u32_elem(name: Seq<char>, v: Option<u32>) -> Option<ElemV> {
    match v {
        Some(x) => Some(text_elem_v(name, dec_str(x as int))),
        None => None,
    }
}

proof fn lemma_names_distinct()
    ensures
        "name"@.len() == 4,
        "version"@.len() == 7,
        "description"@.len() == 11,
        "addressUnitBits"@.len() == 15,
        "width"@.len() == 5,
        "cpu"@.len() == 3,
        "peripherals"@.len() == 11,
        "size"@.len() == 4,
        "access"@.len() == 6,
        "protection"@.len() == 10,
        "resetValue"@.len() == 10,
        "resetMask"@.len() == 9,
        "baseAddress"@.len() == 11,
        "revision"@.len() == 8,
        "endian"@.len() == 6,
        "nvicPrioBits"@.len() == 12,
        "schemaVersion"@.len() == 13,
        "xmlns:xs"@.len() == 8,
        "xs:noNamespaceSchemaLocation"@.len() == 28,
        "name"@ != "size"@,
        "description"@ != "peripherals"@,
        "description"@ != "baseAddress"@,
        "peripherals"@ != "baseAddress"@,
        "access"@ != "endian"@,
        "protection"@ != "resetValue"@,
{
    reveal_strlit("name");
    reveal_strlit("version");
    reveal_strlit("description");
    reveal_strlit("addressUnitBits");
    reveal_strlit("width");
    reveal_strlit("cpu");
    reveal_strlit("peripherals");
    reveal_strlit("size");
    reveal_strlit("access");
    reveal_strlit("protection");
    reveal_strlit("resetValue");
    reveal_strlit("resetMask");
    reveal_strlit("baseAddress");
    reveal_strlit("revision");
    reveal_strlit("endian");
    reveal_strlit("nvicPrioBits");
    reveal_strlit("schemaVersion");
    reveal_strlit("xmlns:xs");
    reveal_strlit("xs:noNamespaceSchemaLocation");
    assert("name"@.len() == 4);
    assert("version"@.len() == 7);
    assert("description"@.len() == 11);
    assert("addressUnitBits"@.len() == 15);
    assert("width"@.len() == 5);
    assert("cpu"@.len() == 3);
    assert("peripherals"@.len() == 11);
    assert("size"@.len() == 4);
    assert("access"@.len() == 6);
    assert("protection"@.len() == 10);
    assert("resetValue"@.len() == 10);
    assert("resetMask"@.len() == 9);
    assert("baseAddress"@.len() == 11);
    assert("revision"@.len() == 8);
    assert("endian"@.len() == 6);
    assert("nvicPrioBits"@.len() == 12);
    assert("schemaVersion"@.len() == 13);
    assert("xmlns:xs"@.len() == 8);
    assert("xs:noNamespaceSchemaLocation"@.len() == 28);
    assert("name"@[0] == 'n' && "size"@[0] == 's');
    assert("name"@ != "size"@);
    assert("description"@[0] == 'd' && "peripherals"@[0] == 'p');
    assert("description"@ != "peripherals"@);
    assert("description"@[0] == 'd' && "baseAddress"@[0] == 'b');
    assert("description"@ != "baseAddress"@);
    assert("peripherals"@[0] == 'p' && "baseAddress"@[0] == 'b');
    assert("peripherals"@ != "baseAddress"@);
    assert("access"@[0] == 'a' && "endian"@[0] == 'e');
    assert("access"@ != "endian"@);
    assert("protection"@[0] == 'p' && "resetValue"@[0] == 'r');
    assert("protection"@ != "resetValue"@);
}

proof fn lemma_find_empty(n: Seq<char>)
    ensures
        find_in_v(Seq::<ElemV>::empty(), n) is None,
{
}

proof fn lemma_find_in_append(a: Seq<ElemV>, b: Seq<ElemV>, n: Seq<char>)
    ensures
        find_in_v(a + b, n) == if find_in_v(a, n) is Some {
            find_in_v(a, n)
        } else {
            find_in_v(b, n)
        },
    decreases a.len(),
{
    if a.len() == 0 {
        assert(a + b =~= b);
        lemma_find_empty(n);
    } else {
        assert((a + b)[0] == a[0]);
        assert((a + b).len() > 0);
        if a[0].name == n {
        } else {
            assert((a + b).drop_first() =~= a.drop_first() + b);
            lemma_find_in_append(a.drop_first(), b, n);
        }
    }
}

proof fn lemma_find_singleton(e: ElemV, n: Seq<char>)
    ensures
        find_in_v(seq![e], n) == if e.name == n {
            Some(e)
        } else {
            None::<ElemV>
        },
{
    assert(seq![e].drop_first() =~= Seq::<ElemV>::empty());
    lemma_find_empty(n);
}

proof fn lemma_find_opt_text(name: Seq<char>, v: Option<Seq<char>>, n: Seq<char>)
    ensures
        find_in_v(opt_text_children_v(name, v), n) == if n == name {
            opt_text_elem(name, v)
        } else {
            None::<ElemV>
        },
{
    match v {
        Some(t) => {
            lemma_find_singleton(text_elem_v(name, t), n);
        },
        None => {
            lemma_find_empty(n);
        },
    }
}

proof fn lemma_find_opt_u32(name: Seq<char>, v: Option<u32>, n: Seq<char>)
    ensures
        find_in_v(opt_u32_children_v(name, v), n) == if n == name {
            opt_u32_elem(name, v)
        } else {
            None::<ElemV>
        },
{
    match v {
        Some(x) => {
            lemma_find_singleton(text_elem_v(name, dec_str(x as int)), n);
        },
        None => {
            lemma_find_empty(n);
        },
    }
}

proof fn lemma_find_defaults_children(d: DefaultsV, n: Seq<char>)
    ensures
        find_in_v(encoded_defaults_children(d), n) == if n == "size"@ {
            opt_u32_elem("size"@, d.size)
        } else if n == "access"@ {
            opt_text_elem("access"@, d.access)
        } else if n == "protection"@ {
            opt_text_elem("protection"@, d.protection)
        } else if n == "resetValue"@ {
            opt_u32_elem("resetValue"@, d.reset_value)
        } else if n == "resetMask"@ {
            opt_u32_elem("resetMask"@, d.reset_mask)
        } else {
            None::<ElemV>
        },
{
    lemma_names_distinct();
    let s1 = opt_u32_children_v("size"@, d.size);
    let s2 = opt_text_children_v("access"@, d.access);
    let s3 = opt_text_children_v("protection"@, d.protection);
    let s4 = opt_u32_children_v("resetValue"@, d.reset_value);
    let s5 = opt_u32_children_v("resetMask"@, d.reset_mask);
    lemma_find_opt_u32("size"@, d.size, n);
    lemma_find_opt_text("access"@, d.access, n);
    lemma_find_opt_text("protection"@, d.protection, n);
    lemma_find_opt_u32("resetValue"@, d.reset_value, n);
    lemma_find_opt_u32("resetMask"@, d.reset_mask, n);
    lemma_find_in_append(s1, s2, n);
    lemma_find_in_append(s1 + s2, s3, n);
    lemma_find_in_append(s1 + s2 + s3, s4, n);
    lemma_find_in_append(s1 + s2 + s3 + s4, s5, n);
}

proof fn lemma_find_encoded_cpu(c: CpuV, n: Seq<char>)
    ensures
        find_child_v(encoded_cpu(c), n) == if n == "name"@ {
            Some(text_elem_v("name"@, c.name))
        } else if n == "revision"@ {
            opt_text_elem("revision"@, c.revision)
        } else if n == "endian"@ {
            opt_text_elem("endian"@, c.endian)
        } else if n == "nvicPrioBits"@ {
            opt_u32_elem("nvicPrioBits"@, c.nvic_prio_bits)
        } else {
            None::<ElemV>
        },
{
    lemma_names_distinct();
    let s1 = seq![text_elem_v("name"@, c.name)];
    let s2 = opt_text_children_v("revision"@, c.revision);
    let s3 = opt_text_children_v("endian"@, c.endian);
    let s4 = opt_u32_children_v("nvicPrioBits"@, c.nvic_prio_bits);
    lemma_find_singleton(text_elem_v("name"@, c.name), n);
    lemma_find_opt_text("revision"@, c.revision, n);
    lemma_find_opt_text("endian"@, c.endian, n);
    lemma_find_opt_u32("nvicPrioBits"@, c.nvic_prio_bits, n);
    lemma_find_in_append(s1, s2, n);
    lemma_find_in_append(s1 + s2, s3, n);
    lemma_find_in_append(s1 + s2 + s3, s4, n);
}

proof fn lemma_find_encoded_peripheral(p: PeripheralV, n: Seq<char>)
    ensures
        find_child_v(encoded_peripheral(p), n) == if n == "name"@ {
            opt_text_elem("name"@, p.name)
        } else if n == "description"@ {
            opt_text_elem("description"@, p.description)
        } else if n == "baseAddress"@ {
            opt_u32_elem("baseAddress"@, p.base_address)
        } else if n == "size"@ {
            opt_u32_elem("size"@, p.defaults.size)
        } else if n == "access"@ {
            opt_text_elem("access"@, p.defaults.access)
        } else if n == "protection"@ {
            opt_text_elem("protection"@, p.defaults.protection)
        } else if n == "resetValue"@ {
            opt_u32_elem("resetValue"@, p.defaults.reset_value)
        } else if n == "resetMask"@ {
            opt_u32_elem("resetMask"@, p.defaults.reset_mask)
        } else {
            None::<ElemV>
        },
{
    lemma_names_distinct();
    let s1 = opt_text_children_v("name"@, p.name);
    let s2 = opt_text_children_v("description"@, p.description);
    let s3 = opt_u32_children_v("baseAddress"@, p.base_address);
    let s4 = encoded_defaults_children(p.defaults);
    lemma_find_opt_text("name"@, p.name, n);
    lemma_find_opt_text("description"@, p.description, n);
    lemma_find_opt_u32("baseAddress"@, p.base_address, n);
    lemma_find_defaults_children(p.defaults, n);
    lemma_find_in_append(s1, s2, n);
    lemma_find_in_append(s1 + s2, s3, n);
    lemma_find_in_append(s1 + s2 + s3, s4, n);
}

proof fn lemma_find_encoded_device(d: DeviceV, n: Seq<char>)
    ensures
        find_child_v(encoded_device(d), n) == if n == "name"@ {
            Some(text_elem_v("name"@, d.name))
        } else if n == "version"@ {
            opt_text_elem("version"@, d.version)
        } else if n == "description"@ {
            opt_text_elem("description"@, d.description)
        } else if n == "addressUnitBits"@ {
            opt_u32_elem("addressUnitBits"@, d.address_unit_bits)
        } else if n == "width"@ {
            opt_u32_elem("width"@, d.width)
        } else if n == "cpu"@ {
            match d.cpu {
                Some(c) => Some(encoded_cpu(c)),
                None => None,
            }
        } else if n == "peripherals"@ {
            Some(peripherals_container_v(d.peripherals))
        } else {
            None::<ElemV>
        },
{
    lemma_names_distinct();
    let s1 = seq![text_elem_v("name"@, d.name)];
    let s2 = opt_text_children_v("version"@, d.version);
    let s3 = opt_text_children_v("description"@, d.description);
    let s4 = opt_u32_children_v("addressUnitBits"@, d.address_unit_bits);
    let s5 = opt_u32_children_v("width"@, d.width);
    let s6 = crate::cpu::opt_cpu_children_v(d.cpu);
    let s7 = seq![peripherals_container_v(d.peripherals)];
    lemma_find_singleton(text_elem_v("name"@, d.name), n);
    lemma_find_opt_text("version"@, d.version, n);
    lemma_find_opt_text("description"@, d.description, n);
    lemma_find_opt_u32("addressUnitBits"@, d.address_unit_bits, n);
    lemma_find_opt_u32("width"@, d.width, n);
    match d.cpu {
        Some(c) => {
            lemma_find_singleton(encoded_cpu(c), n);
        },
        None => {
            lemma_find_empty(n);
        },
    }
    lemma_find_singleton(peripherals_container_v(d.peripherals), n);
    lemma_find_in_append(s1, s2, n);
    lemma_find_in_append(s1 + s2, s3, n);
    lemma_find_in_append(s1 + s2 + s3, s4, n);
    lemma_find_in_append(s1 + s2 + s3 + s4, s5, n);
    lemma_find_in_append(s1 + s2 + s3 + s4 + s5, s6, n);
    lemma_find_in_append(s1 + s2 + s3 + s4 + s5 + s6, s7, n);
}

proof fn lemma_reparse_opt_text(e: ElemV, name: Seq<char>, v: Option<Seq<char>>)
    requires
        find_child_v(e, name) == opt_text_elem(name, v),
        opt_trimmed(v),
    ensures
        spec_opt_text(e, name) == v,
{
    match v {
        Some(t) => {
            assert(text_of(text_elem_v(name, t)) == trim_ws(t));
        },
        None => {},
    }
}

proof fn lemma_reparse_opt_u32(e: ElemV, name: Seq<char>, v: Option<u32>)
    requires
        find_child_v(e, name) == opt_u32_elem(name, v),
    ensures
        spec_opt_u32(e, name) == Ok::<_, SvdErrorV>(v),
{
    match v {
        Some(x) => {
            lemma_dec_str_val(x as int);
            lemma_trim_ws_no_ws(dec_str(x as int));
            assert(text_of(text_elem_v(name, dec_str(x as int))) == dec_str(x as int));
            assert(u32_of_text(dec_str(x as int)) == Some(x));
        },
        None => {},
    }
}

proof fn lemma_reparse_defaults_on(e: ElemV, dd: DefaultsV)
    requires
        defaults_parsed_form(dd),
        find_child_v(e, "size"@) == opt_u32_elem("size"@, dd.size),
        find_child_v(e, "access"@) == opt_text_elem("access"@, dd.access),
        find_child_v(e, "protection"@) == opt_text_elem("protection"@, dd.protection),
        find_child_v(e, "resetValue"@) == opt_u32_elem("resetValue"@, dd.reset_value),
        find_child_v(e, "resetMask"@) == opt_u32_elem("resetMask"@, dd.reset_mask),
    ensures
        spec_parse_defaults(e) == Ok::<_, SvdErrorV>(dd),
{
    lemma_reparse_opt_u32(e, "size"@, dd.size);
    lemma_reparse_opt_text(e, "access"@, dd.access);
    lemma_reparse_opt_text(e, "protection"@, dd.protection);
    lemma_reparse_opt_u32(e, "resetValue"@, dd.reset_value);
    lemma_reparse_opt_u32(e, "resetMask"@, dd.reset_mask);
    assert(spec_parse_defaults(e)->Ok_0 =~= dd);
}

/// Re-parsing an encoded `Cpu` yields it back unchanged.
pub proof fn lemma_reparse_cpu(c: CpuV)
    requires
        cpu_parsed_form(c),
    ensures
        spec_parse_cpu(encoded_cpu(c)) == Ok::<_, SvdErrorV>(c),
{
    lemma_names_distinct();
    let e = encoded_cpu(c);
    lemma_find_encoded_cpu(c, "name"@);
    lemma_find_encoded_cpu(c, "revision"@);
    lemma_find_encoded_cpu(c, "endian"@);
    lemma_find_encoded_cpu(c, "nvicPrioBits"@);
    assert(find_child_v(e, "name"@) == Some(text_elem_v("name"@, c.name)));
    assert(text_of(text_elem_v("name"@, c.name)) == trim_ws(c.name));
    lemma_reparse_opt_text(e, "revision"@, c.revision);
    lemma_reparse_opt_text(e, "endian"@, c.endian);
    lemma_reparse_opt_u32(e, "nvicPrioBits"@, c.nvic_prio_bits);
    assert(spec_parse_cpu(e)->Ok_0 =~= c);
}

/// Re-parsing an encoded `Peripheral` yields it back unchanged.
pub proof fn lemma_reparse_peripheral(p: PeripheralV)
    requires
        peripheral_parsed_form(p),
    ensures
        spec_parse_peripheral(encoded_peripheral(p)) == Ok::<_, SvdErrorV>(p),
{
    lemma_names_distinct();
    let e = encoded_peripheral(p);
    lemma_find_encoded_peripheral(p, "name"@);
    lemma_find_encoded_peripheral(p, "description"@);
    lemma_find_encoded_peripheral(p, "baseAddress"@);
    lemma_find_encoded_peripheral(p, "size"@);
    lemma_find_encoded_peripheral(p, "access"@);
    lemma_find_encoded_peripheral(p, "protection"@);
    lemma_find_encoded_peripheral(p, "resetValue"@);
    lemma_find_encoded_peripheral(p, "resetMask"@);
    lemma_reparse_opt_text(e, "name"@, p.name);
    lemma_reparse_opt_text(e, "description"@, p.description);
    lemma_reparse_opt_u32(e, "baseAddress"@, p.base_address);
    lemma_reparse_defaults_on(e, p.defaults);
    assert(spec_parse_peripheral(e)->Ok_0 =~= p);
}

/// Re-parsing an encoded device yields a device with the same tracked
/// fields; only `width` (never parse-derived) and the root's own defaults
/// (not re-emitted by the document encoder) reset.
pub proof fn lemma_reparse_encoded_device(d: DeviceV)
    requires
        device_parsed_form(d),
    ensures
        spec_parse_device(encoded_device(d)) == Ok::<_, SvdErrorV>(
            DeviceV { width: None, defaults: empty_defaults(), ..d },
        ),
{
    lemma_names_distinct();
    let e = encoded_device(d);
    lemma_find_encoded_device(d, "name"@);
    lemma_find_encoded_device(d, "version"@);
    lemma_find_encoded_device(d, "description"@);
    lemma_find_encoded_device(d, "addressUnitBits"@);
    lemma_find_encoded_device(d, "cpu"@);
    lemma_find_encoded_device(d, "peripherals"@);
    lemma_find_encoded_device(d, "size"@);
    lemma_find_encoded_device(d, "access"@);
    lemma_find_encoded_device(d, "protection"@);
    lemma_find_encoded_device(d, "resetValue"@);
    lemma_find_encoded_device(d, "resetMask"@);
    // The required name child and its text.
    assert(find_child_v(e, "name"@) == Some(text_elem_v("name"@, d.name)));
    assert(text_of(text_elem_v("name"@, d.name)) == trim_ws(d.name));
    // The schemaVersion attribute is the second of the three the encoder
    // writes.
    assert(e.attributes.drop_first() =~= seq![
        AttrV { name: "schemaVersion"@, value: d.schema_version },
        AttrV {
            name: "xs:noNamespaceSchemaLocation"@,
            value: crate::device::schema_location(d.schema_version),
        },
    ]);
    assert(attr_val(e, "schemaVersion"@) == Some(d.schema_version)) by {
        assert("xmlns:xs"@.len() == 8);
        assert("schemaVersion"@.len() == 13);
        assert(find_attr_in(e.attributes, "schemaVersion"@) == find_attr_in(
            e.attributes.drop_first(),
            "schemaVersion"@,
        ));
    }
    // The optional scalar fields and the cpu.
    lemma_reparse_opt_text(e, "version"@, d.version);
    lemma_reparse_opt_text(e, "description"@, d.description);
    lemma_reparse_opt_u32(e, "addressUnitBits"@, d.address_unit_bits);
    match d.cpu {
        Some(c) => {
            lemma_reparse_cpu(c);
            assert(spec_opt_cpu(e) == Ok::<_, SvdErrorV>(Some(c)));
        },
        None => {
            assert(spec_opt_cpu(e) == Ok::<_, SvdErrorV>(None::<CpuV>));
        },
    }
    // The peripherals container: every child re-parses to the peripheral it
    // encodes, in order.
    let pc = peripherals_container_v(d.peripherals);
    assert forall|i: int| 0 <= i < d.peripherals.len() implies #[trigger] spec_parse_peripheral(
        pc.children[i],
    ) == Ok::<_, SvdErrorV>(d.peripherals[i]) by {
        assert(pc.children[i] == encoded_peripheral(d.peripherals[i]));
        lemma_reparse_peripheral(d.peripherals[i]);
    }
    lemma_parse_peripherals_all_ok(pc.children, d.peripherals);
    // The root's own defaults: the document encoder writes no override
    // elements at the root, so they re-parse as all-absent.
    lemma_reparse_defaults_on(e, empty_defaults());
    assert(spec_parse_device(e)->Ok_0 =~= (DeviceV {
        width: None,
        defaults: empty_defaults(),
        ..d
    }));
}

/// Idempotence: encoding a parsed device and re-parsing the result yields a
/// device equal in every field the model tracks from input — name, schema
/// version, version, description, address unit bits, cpu and peripherals.
pub proof fn lemma_parse_encode_parse(t: ElemV, d: DeviceV)
    requires
        spec_parse_device(t) == Ok::<_, SvdErrorV>(d),
    ensures
        spec_parse_device(encoded_device(d)) is Ok,
        ({
            let r = spec_parse_device(encoded_device(d))->Ok_0;
            &&& r.name == d.name
            &&& r.schema_version == d.schema_version
            &&& r.version == d.version
            &&& r.description == d.description
            &&& r.address_unit_bits == d.address_unit_bits
            &&& r.cpu == d.cpu
            &&& r.peripherals == d.peripherals
        }),
{
    lemma_device_parsed_form(t, d);
    lemma_reparse_encoded_device(d);
}

/// Ordering: the encoded `peripherals` container holds exactly one child
/// per parsed peripheral, in the original parse order.
pub proof fn lemma_encode_preserves_peripheral_order(t: ElemV, d: DeviceV, pc: ElemV)
    requires
        spec_parse_device(t) == Ok::<_, SvdErrorV>(d),
        find_child_v(t, "peripherals"@) == Some(pc),
    ensures
        d.peripherals.len() == pc.children.len(),
        forall|i: int|
            0 <= i < pc.children.len() ==> #[trigger] spec_parse_peripheral(pc.children[i])
                == Ok::<_, SvdErrorV>(d.peripherals[i]),
        encoded_device(d).children.last() == peripherals_container_v(d.peripherals),
        peripherals_container_v(d.peripherals).children.len() == d.peripherals.len(),
        forall|i: int|
            0 <= i < d.peripherals.len() ==> peripherals_container_v(d.peripherals).children[i]
                == encoded_peripheral(#[trigger] d.peripherals[i]),
{
    lemma_parse_peripherals_ok(pc.children, d.peripherals);
    let cs = encoded_device(d).children;
    assert(cs.last() == peripherals_container_v(d.peripherals));
}

/// A successful parse found the `name` child, the `schemaVersion`
/// attribute and the `peripherals` container; in particular a document
/// missing `name` or `peripherals` yields no device, and a missing `name`
/// is reported as exactly that.
pub proof fn lemma_parse_needs_required_fields(t: ElemV)
    ensures
        spec_parse_device(t) is Ok ==> find_child_v(t, "name"@) is Some && attr_val(
            t,
            "schemaVersion"@,
        ) is Some && find_child_v(t, "peripherals"@) is Some,
        find_child_v(t, "name"@) is None ==> spec_parse_device(t) == Err::<DeviceV, _>(
            SvdErrorV::MissingElement("name"@),
        ),
        find_child_v(t, "name"@) is Some && attr_val(t, "schemaVersion"@) is None
            ==> spec_parse_device(t) == Err::<DeviceV, _>(
            SvdErrorV::MissingAttribute("schemaVersion"@),
        ),
{
}

/// A document whose earlier fields are well-formed but whose `peripherals`
/// container is absent fails with a missing-required-element error naming
/// it.
pub proof fn lemma_missing_peripherals(t: ElemV)
    requires
        find_child_v(t, "name"@) is Some,
        attr_val(t, "schemaVersion"@) is Some,
        spec_opt_u32(t, "addressUnitBits"@) is Ok,
        spec_opt_cpu(t) is Ok,
        find_child_v(t, "peripherals"@) is None,
    ensures
        spec_parse_device(t) == Err::<DeviceV, _>(SvdErrorV::MissingElement("peripherals"@)),
{
}

/// A document whose `addressUnitBits` text is not a numeric literal fails
/// with a malformed-number error carrying that text.
pub proof fn lemma_malformed_address_unit_bits(t: ElemV, c: ElemV)
    requires
        find_child_v(t, "name"@) is Some,
        attr_val(t, "schemaVersion"@) is Some,
        find_child_v(t, "addressUnitBits"@) == Some(c),
        u32_of_text(text_of(c)) is None,
    ensures
        spec_parse_device(t) == Err::<DeviceV, _>(SvdErrorV::MalformedNumber(text_of(c))),
{
}

/// A present `peripherals` container with no children is valid and yields
/// the empty peripheral sequence.
pub proof fn lemma_empty_peripherals(t: ElemV, pc: ElemV)
    requires
        find_child_v(t, "name"@) is Some,
        attr_val(t, "schemaVersion"@) is Some,
        spec_opt_u32(t, "addressUnitBits"@) is Ok,
        spec_opt_cpu(t) is Ok,
        spec_parse_defaults(t) is Ok,
        find_child_v(t, "peripherals"@) == Some(pc),
        pc.children.len() == 0,
    ensures
        spec_parse_device(t) is Ok,
        spec_parse_device(t)->Ok_0.peripherals == Seq::<PeripheralV>::empty(),
{
    assert(pc.children =~= Seq::<ElemV>::empty());
}

} // verus!
