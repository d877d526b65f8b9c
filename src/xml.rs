use vstd::prelude::*;
use crate::error::RsmlError;
use crate::text::{chars_of, eq_exact};

verus! {

/// One element of a parsed document: its tag, attributes, text and child elements.
#[derive(Debug)]
pub struct Element {
    pub name: String,
    pub attributes: Vec<(String, String)>,
    pub text: String,
    pub children: Vec<Element>,
}

/// The value of the first attribute named `name`.
pub open spec fn attribute_of(attrs: Seq<(String, String)>, name: Seq<char>) -> Option<String>
    decreases attrs.len(),
{
    if attrs.len() == 0 {
        None
    } else if attrs[0].0@ == name {
        Some(attrs[0].1)
    } else {
        attribute_of(attrs.drop_first(), name)
    }
}

impl Element {
    /// An element with tag `name` and nothing else.
    pub fn new(name: String) -> (r: Element)
        ensures
            r.name@ == name@,
            r.attributes@.len() == 0,
            r.text@.len() == 0,
            r.children@.len() == 0,
    {
        Element { name, attributes: Vec::new(), text: String::new(), children: Vec::new() }
    }

    /// Sets attribute `key` to `value`, replacing an earlier value of the same key.
    pub fn set_attribute(&mut self, key: String, value: String)
        ensures
            final(self).name == old(self).name,
            final(self).text == old(self).text,
            final(self).children == old(self).children,
            attribute_of(final(self).attributes@, key@) == Some(value),
    {
        let k = chars_of(key.as_str());
        let mut i: usize = 0;
        while i < self.attributes.len()
            invariant
                i <= old(self).attributes@.len(),
                self.attributes@ == old(self).attributes@,
                self.name == old(self).name,
                self.text == old(self).text,
                self.children == old(self).children,
                k@ == key@,
                forall|j: int| 0 <= j < i ==> (#[trigger] self.attributes@[j]).0@ != key@,
            decreases old(self).attributes@.len() - i,
        {
            if eq_exact(&k, self.attributes[i].0.as_str()) {
                self.attributes.set(i, (key, value));
                proof {
                    lemma_attribute_at(self.attributes@, key@, i as int);
                }
                return;
            }
            i = i + 1;
        }
        self.attributes.push((key, value));
        proof {
            lemma_attribute_at(self.attributes@, key@, i as int);
        }
    }

    /// The value of attribute `name`.
    pub fn get_attribute(&self, name: &str) -> (r: Option<&String>)
        ensures
            match attribute_of(self.attributes@, name@) {
                Some(v) => r == Some(&v),
                None => r is None,
            },
    {
        let n = chars_of(name);
        let mut i: usize = 0;
        assert(self.attributes@.skip(0) =~= self.attributes@);
        while i < self.attributes.len()
            invariant
                i <= self.attributes@.len(),
                n@ == name@,
                attribute_of(self.attributes@.skip(i as int), name@) == attribute_of(
                    self.attributes@,
                    name@,
                ),
            decreases self.attributes@.len() - i,
        {
            let ghost rest = self.attributes@.skip(i as int);
            assert(rest[0] == self.attributes@[i as int]);
            if eq_exact(&n, self.attributes[i].0.as_str()) {
                return Some(&self.attributes[i].1);
            }
            assert(rest.drop_first() =~= self.attributes@.skip(i as int + 1));
            i = i + 1;
        }
        None
    }

    /// The first child with tag `name`.
    pub fn find_child(&self, name: &str) -> (r: Option<&Element>)
        ensures
            match r {
                Some(c) => exists|i: int|
                    0 <= i < self.children@.len() && self.children@[i] == *c && c.name@ == name@
                        && forall|j: int| 0 <= j < i ==> (#[trigger] self.children@[j]).name@ != name@,
                None => forall|j: int|
                    0 <= j < self.children@.len() ==> (#[trigger] self.children@[j]).name@ != name@,
            },
    {
        let n = chars_of(name);
        let mut i: usize = 0;
        while i < self.children.len()
            invariant
                i <= self.children@.len(),
                n@ == name@,
                forall|j: int| 0 <= j < i ==> (#[trigger] self.children@[j]).name@ != name@,
            decreases self.children@.len() - i,
        {
            if eq_exact(&n, self.children[i].name.as_str()) {
                return Some(&self.children[i]);
            }
            i = i + 1;
        }
        None
    }

    /// The children with tag `name`, in document order.
    pub fn find_children(&self, name: &str) -> (r: Vec<&Element>)
        ensures
            r@.len() <= self.children@.len(),
            forall|k: int| 0 <= k < r@.len() ==> (#[trigger] r@[k]).name@ == name@,
            r@.len() == count_named(self.children@, name@),
    {
        let n = chars_of(name);
        let mut r: Vec<&Element> = Vec::new();
        let mut i: usize = 0;
        while i < self.children.len()
            invariant
                i <= self.children@.len(),
                n@ == name@,
                r@.len() <= i,
                forall|k: int| 0 <= k < r@.len() ==> (#[trigger] r@[k]).name@ == name@,
                r@.len() == count_named(self.children@.take(i as int), name@),
            decreases self.children@.len() - i,
        {
            assert(self.children@.take(i as int + 1).drop_last() =~= self.children@.take(i as int));
            if eq_exact(&n, self.children[i].name.as_str()) {
                r.push(&self.children[i]);
            }
            i = i + 1;
        }
        assert(self.children@.take(i as int) =~= self.children@);
        r
    }
}

pub open spec fn has_child_named(el: Element, name: Seq<char>) -> bool {
    exists|i: int| 0 <= i < el.children@.len() && (#[trigger] el.children@[i]).name@ == name
}

/// Checks the outline of a scene document: an `rsml` root holding a `head` and a `body`.
pub fn validate_rsml_structure(element: &Element) -> (r: Result<(), RsmlError>)
    ensures
        element.name@ != "rsml"@ ==> r == Err::<(), RsmlError>(RsmlError::InvalidStructure),
        element.name@ == "rsml"@ && !has_child_named(*element, "head"@) ==> r == Err::<
            (),
            RsmlError,
        >(RsmlError::MissingHead),
        element.name@ == "rsml"@ && has_child_named(*element, "head"@) && !has_child_named(
            *element,
            "body"@,
        ) ==> r == Err::<(), RsmlError>(RsmlError::MissingBody),
        r is Ok <==> (element.name@ == "rsml"@ && has_child_named(*element, "head"@)
            && has_child_named(*element, "body"@)),
{
    let n = chars_of(element.name.as_str());
    if !eq_exact(&n, "rsml") {
        return Err(RsmlError::InvalidStructure);
    }
    if element.find_child("head").is_none() {
        return Err(RsmlError::MissingHead);
    }
    if element.find_child("body").is_none() {
        return Err(RsmlError::MissingBody);
    }
    Ok(())
}

/// How many of `elems` have tag `name`.
pub open spec fn count_named(elems: Seq<Element>, name: Seq<char>) -> nat
    decreases elems.len(),
{
    if elems.len() == 0 {
        0
    } else {
        count_named(elems.drop_last(), name) + if elems.last().name@ == name {
            1nat
        } else {
            0nat
        }
    }
}

proof fn lemma_attribute_at(attrs: Seq<(String, String)>, name: Seq<char>, i: int)
    requires
        0 <= i < attrs.len(),
        attrs[i].0@ == name,
        forall|j: int| 0 <= j < i ==> (#[trigger] attrs[j]).0@ != name,
    ensures
        attribute_of(attrs, name) == Some(attrs[i].1),
    decreases i,
{
    if i > 0 {
        let t = attrs.drop_first();
        assert forall|j: int| 0 <= j < i - 1 implies (#[trigger] t[j]).0@ != name by {
            assert(t[j] == attrs[j + 1]);
        }
        lemma_attribute_at(t, name, i - 1);
    }
}

} // verus!
