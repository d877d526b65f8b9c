use vstd::prelude::*;
use crate::base::{length_parse, parse_length_chars, Length, ParseError};
use crate::dim3::{dim3_max, Dim3};
use crate::text::{chars_of, eq_exact, split_words, views, words};

verus! {

/// The kind of geometry an object is drawn with.
#[derive(Debug, Clone, Copy, PartialEq, Eq, Structural)]
pub enum GeomType {
    Box,
    Mesh,
}

impl Default for GeomType {
    fn default() -> (r: GeomType)
        ensures
            r == GeomType::Mesh,
    {
        GeomType::Mesh
    }
}

/// What reading `s` as three lengths `x y z` gives.
pub open spec fn dim3_parse(s: Seq<char>) -> Result<Dim3<Length>, ParseError> {
    let w = words(s);
    if w.len() != 3 {
        Err(ParseError::WrongValueCount)
    } else {
        match (length_parse(w[0]), length_parse(w[1]), length_parse(w[2])) {
            (Err(e), _, _) => Err(e),
            (Ok(_), Err(e), _) => Err(e),
            (Ok(_), Ok(_), Err(e)) => Err(e),
            (Ok(x), Ok(y), Ok(z)) => Ok(Dim3 { x, y, z }),
        }
    }
}

/// Reads a catalogue size such as `1m 1m 10cm`: exactly three white-space separated lengths.
pub fn parse_dim3_length(s: &str) -> (r: Result<Dim3<Length>, ParseError>)
    ensures
        r == dim3_parse(s@),
{
    let v = chars_of(s);
    let w = split_words(&v);
    if w.len() != 3 {
        return Err(ParseError::WrongValueCount);
    }
    assert(views(w@)[0] == w@[0]@);
    assert(views(w@)[1] == w@[1]@);
    assert(views(w@)[2] == w@[2]@);
    let x = match parse_length_chars(&w[0]) {
        Ok(l) => l,
        Err(e) => return Err(e),
    };
    let y = match parse_length_chars(&w[1]) {
        Ok(l) => l,
        Err(e) => return Err(e),
    };
    let z = match parse_length_chars(&w[2]) {
        Ok(l) => l,
        Err(e) => return Err(e),
    };
    Ok(Dim3 { x, y, z })
}

/// A catalogued physical object with a fixed bounding box.
#[derive(Debug, Clone)]
pub struct Object {
    pub geom_type: GeomType,
    pub size: Dim3<Length>,
    pub path: Option<String>,
}

impl Object {
    pub fn geom_type(&self) -> (r: GeomType)
        ensures
            r == self.geom_type,
    {
        self.geom_type
    }

    pub fn size(&self) -> (r: Dim3<Length>)
        ensures
            r == self.size,
    {
        self.size
    }

    /// The bounding box of the object.
    pub fn space_size(&self) -> (r: Dim3<Length>)
        ensures
            r == self.size,
    {
        self.size
    }
}

/// A named set of objects, sized by their common bounding box.
#[derive(Debug, Clone)]
pub struct Group {
    pub name: String,
    pub objects: Vec<(String, Object)>,
}

/// The axis-wise largest size of the objects, or `None` when there are none.
pub open spec fn box_of(objs: Seq<(String, Object)>) -> Option<Dim3<Length>>
    decreases objs.len(),
{
    if objs.len() == 0 {
        None
    } else {
        match box_of(objs.drop_last()) {
            None => Some(objs.last().1.size),
            Some(m) => Some(dim3_max(m, objs.last().1.size)),
        }
    }
}

impl Group {
    pub fn name(&self) -> (r: &String)
        ensures
            r@ == self.name@,
    {
        &self.name
    }

    pub fn items(&self) -> (r: &Vec<(String, Object)>)
        ensures
            r@ == self.objects@,
    {
        &self.objects
    }

    /// The axis-wise largest size of the group's objects, or `None` for an empty group.
    pub fn space_size(&self) -> (r: Option<Dim3<Length>>)
        ensures
            r == box_of(self.objects@),
    {
        let mut m: Option<Dim3<Length>> = None;
        let mut i: usize = 0;
        while i < self.objects.len()
            invariant
                i <= self.objects@.len(),
                m == box_of(self.objects@.take(i as int)),
            decreases self.objects@.len() - i,
        {
            assert(self.objects@.take(i as int + 1).drop_last() =~= self.objects@.take(i as int));
            let s = self.objects[i].1.size;
            m = match m {
                None => Some(s),
                Some(cur) => Some(cur.max_with(&s)),
            };
            i = i + 1;
        }
        assert(self.objects@.take(i as int) =~= self.objects@);
        m
    }
}

/// The name and description of a catalogue.
#[derive(Debug, Clone)]
pub struct PackageInfo {
    pub name: String,
    pub description: String,
}

/// A catalogue of objects and groups, looked up by name.
#[derive(Debug, Clone)]
pub struct Package {
    pub package: PackageInfo,
    pub objects: Vec<(String, Object)>,
    pub groups: Vec<Group>,
    pub dependencies: Vec<(String, String)>,
}

/// The first entry named `name`.
pub open spec fn find_named<T>(entries: Seq<(String, T)>, name: Seq<char>) -> Option<T>
    decreases entries.len(),
{
    if entries.len() == 0 {
        None
    } else if entries[0].0@ == name {
        Some(entries[0].1)
    } else {
        find_named(entries.drop_first(), name)
    }
}

/// No two entries share a name, as in a map keyed by name.
pub open spec fn distinct_names<T>(entries: Seq<(String, T)>) -> bool {
    forall|i: int, j: int|
        0 <= i < j < entries.len() ==> (#[trigger] entries[i]).0@ != (#[trigger] entries[j]).0@
}

/// With distinct names, looking up the name of any entry finds that entry, wherever
/// it stands: the order of the entries does not matter.
pub proof fn lemma_find_named_distinct<T>(entries: Seq<(String, T)>, i: int)
    requires
        distinct_names(entries),
        0 <= i < entries.len(),
    ensures
        find_named(entries, entries[i].0@) == Some(entries[i].1),
    decreases i,
{
    if i > 0 {
        let t = entries.drop_first();
        assert(entries[0].0@ != entries[i].0@);
        assert forall|a: int, b: int| 0 <= a < b < t.len() implies (#[trigger] t[a]).0@ != (
        #[trigger] t[b]).0@ by {
            assert(t[a] == entries[a + 1] && t[b] == entries[b + 1]);
        }
        assert(t[i - 1] == entries[i]);
        lemma_find_named_distinct(t, i - 1);
    }
}

/// The first group named `name`.
pub open spec fn find_group(groups: Seq<Group>, name: Seq<char>) -> Option<Group>
    decreases groups.len(),
{
    if groups.len() == 0 {
        None
    } else if groups[0].name@ == name {
        Some(groups[0])
    } else {
        find_group(groups.drop_first(), name)
    }
}

/// The bounding box that the catalogue gives for `name`: an object's own size, else the
/// box of the first group of that name, else nothing.
pub open spec fn catalogue_size(p: Package, name: Seq<char>) -> Option<Dim3<Length>> {
    match find_named(p.objects@, name) {
        Some(o) => Some(o.size),
        None => match find_group(p.groups@, name) {
            Some(g) => box_of(g.objects@),
            None => None,
        },
    }
}

fn lookup<'a, T>(entries: &'a Vec<(String, T)>, name: &Vec<char>) -> (r: Option<&'a T>)
    ensures
        match find_named(entries@, name@) {
            Some(v) => r == Some(&v),
            None => r is None,
        },
{
    let mut i: usize = 0;
    assert(entries@.skip(0) =~= entries@);
    while i < entries.len()
        invariant
            i <= entries@.len(),
            find_named(entries@.skip(i as int), name@) == find_named(entries@, name@),
        decreases entries@.len() - i,
    {
        let ghost rest = entries@.skip(i as int);
        assert(rest[0] == entries@[i as int]);
        if eq_exact(name, entries[i].0.as_str()) {
            return Some(&entries[i].1);
        }
        assert(rest.drop_first() =~= entries@.skip(i as int + 1));
        i = i + 1;
    }
    None
}

fn lookup_group<'a>(groups: &'a Vec<Group>, name: &Vec<char>) -> (r: Option<&'a Group>)
    ensures
        match find_group(groups@, name@) {
            Some(g) => r == Some(&g),
            None => r is None,
        },
{
    let mut i: usize = 0;
    assert(groups@.skip(0) =~= groups@);
    while i < groups.len()
        invariant
            i <= groups@.len(),
            find_group(groups@.skip(i as int), name@) == find_group(groups@, name@),
        decreases groups@.len() - i,
    {
        let ghost rest = groups@.skip(i as int);
        assert(rest[0] == groups@[i as int]);
        if eq_exact(name, groups[i].name.as_str()) {
            return Some(&groups[i]);
        }
        assert(rest.drop_first() =~= groups@.skip(i as int + 1));
        i = i + 1;
    }
    None
}

impl Package {
    /// Objects, dependencies and each group's objects are keyed by distinct names.
    pub open spec fn wf(&self) -> bool {
        &&& distinct_names(self.objects@)
        &&& distinct_names(self.dependencies@)
        &&& forall|g: int| 0 <= g < self.groups@.len() ==> distinct_names(#[trigger] self.groups@[g].objects@)
    }

    pub fn dependencies(&self) -> (r: &Vec<(String, String)>)
        ensures
            r@ == self.dependencies@,
    {
        &self.dependencies
    }

    /// The location recorded for the dependency `name`.
    pub fn get_dependency(&self, name: &str) -> (r: Option<&String>)
        ensures
            match find_named(self.dependencies@, name@) {
                Some(v) => r == Some(&v),
                None => r is None,
            },
    {
        let n = chars_of(name);
        lookup(&self.dependencies, &n)
    }

    pub fn has_dependency(&self, name: &str) -> (r: bool)
        ensures
            r == find_named(self.dependencies@, name@) is Some,
    {
        self.get_dependency(name).is_some()
    }

    pub fn objects(&self) -> (r: &Vec<(String, Object)>)
        ensures
            r@ == self.objects@,
    {
        &self.objects
    }

    /// The object named `name`.
    pub fn get_object(&self, name: &str) -> (r: Option<&Object>)
        ensures
            match find_named(self.objects@, name@) {
                Some(v) => r == Some(&v),
                None => r is None,
            },
    {
        let n = chars_of(name);
        lookup(&self.objects, &n)
    }

    pub fn has_object(&self, name: &str) -> (r: bool)
        ensures
            r == find_named(self.objects@, name@) is Some,
    {
        self.get_object(name).is_some()
    }

    pub fn groups(&self) -> (r: &Vec<Group>)
        ensures
            r@ == self.groups@,
    {
        &self.groups
    }

    /// The first group named `name`.
    pub fn get_group(&self, name: &str) -> (r: Option<&Group>)
        ensures
            match find_group(self.groups@, name@) {
                Some(g) => r == Some(&g),
                None => r is None,
            },
    {
        let n = chars_of(name);
        lookup_group(&self.groups, &n)
    }

    pub fn has_group(&self, name: &str) -> (r: bool)
        ensures
            r == find_group(self.groups@, name@) is Some,
    {
        self.get_group(name).is_some()
    }

    /// The bounding box of the object or group named `name`.
    pub fn get_space_size(&self, name: &str) -> (r: Option<Dim3<Length>>)
        ensures
            r == catalogue_size(*self, name@),
    {
        let n = chars_of(name);
        match lookup(&self.objects, &n) {
            Some(o) => Some(o.size),
            None => match lookup_group(&self.groups, &n) {
                Some(g) => g.space_size(),
                None => None,
            },
        }
    }
}

} // verus!
