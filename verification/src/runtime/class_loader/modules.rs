//! The modules that class files come from: a directory of class files and
//! a module archive. What is read from disk is read elsewhere; here is what
//! is made of names and of the module description.

use crate::class::structs::java_str::{java_cesu8_decoded, JavaStr};
use crate::runtime::structs::attributes::{attribute_infos_view, AttributeInfo, AttributeInfoView};
use vstd::prelude::*;

verus! {

/// The texts of the first `n` names that are modified UTF-8, in their
/// order.
pub open spec fn decoded_names(names: Seq<Seq<u8>>, n: int) -> Seq<Seq<char>>
    decreases n,
{
    if n <= 0 {
        Seq::empty()
    } else {
        match java_cesu8_decoded(names[n - 1]) {
            Some(text) => decoded_names(names, n - 1).push(text),
            None => decoded_names(names, n - 1),
        }
    }
}

/// The packages that the first `n` attributes of a module description
/// name: those of its lists of packages, in their order.
pub open spec fn packages_in(attributes: Seq<AttributeInfoView>, n: int) -> Seq<Seq<char>>
    decreases n,
{
    if n <= 0 {
        Seq::empty()
    } else {
        match attributes[n - 1] {
            AttributeInfoView::ModulePackages(names) => packages_in(attributes, n - 1)
                + decoded_names(names, names.len() as int),
            _ => packages_in(attributes, n - 1),
        }
    }
}

/// The texts of the strings.
pub open spec fn texts(strings: Seq<String>) -> Seq<Seq<char>> {
    strings.map_values(|s: String| s@)
}

/// The packages that the attributes of a module description name.
pub fn module_packages(attributes: &Vec<AttributeInfo>) -> (packages: Vec<String>)
    ensures
        texts(packages@) == packages_in(
            attribute_infos_view(attributes@),
            attributes.len() as int,
        ),
{
    let ghost views = attribute_infos_view(attributes@);
    let mut packages: Vec<String> = Vec::new();
    assert(texts(packages@) =~= packages_in(views, 0));
    let mut i: usize = 0;
    while i < attributes.len()
        invariant
            i <= attributes.len(),
            views == attribute_infos_view(attributes@),
            texts(packages@) == packages_in(views, i as int),
        decreases attributes.len() - i,
    {
        assert(views[i as int] == attributes@[i as int].model());
        match &attributes[i] {
            AttributeInfo::ModulePackages(names) => {
                let ghost front = texts(packages@);
                let ghost name_views = views[i as int]->ModulePackages_0;
                assert(name_views =~= names@.map_values(|n: JavaStr| n@));
                assert(texts(packages@) =~= front + decoded_names(name_views, 0));
                let mut k: usize = 0;
                while k < names.len()
                    invariant
                        k <= names.len(),
                        name_views == names@.map_values(|n: JavaStr| n@),
                        texts(packages@) == front + decoded_names(name_views, k as int),
                    decreases names.len() - k,
                {
                    assert(name_views[k as int] == names@[k as int]@);
                    let ghost held = packages@;
                    match names[k].to_str() {
                        Some(text) => {
                            let ghost t = text@;
                            packages.push(text);
                            assert(texts(packages@) =~= texts(held).push(t));
                            assert(texts(packages@) =~= front + decoded_names(
                                name_views,
                                k + 1,
                            ));
                        },
                        None => {},
                    }
                    k += 1;
                }
            },
            _ => {},
        }
        i += 1;
    }
    packages
}

/// A directory of class files.
pub struct ClassPathModule {
    pub name: String,
    /// The path of the directory.
    pub base_path: String,
}

/// The package of the class files of a directory below the directory
/// `base`: what the path of the directory has behind the path of `base`,
/// without the `/` in front. None where the directory is not below
/// `base`.
pub open spec fn package_below(base: Seq<char>, directory: Seq<char>) -> Option<Seq<char>> {
    if directory.len() >= base.len() && directory.subrange(0, base.len() as int) == base {
        let rest = directory.subrange(base.len() as int, directory.len() as int);
        if rest.len() > 0 && rest[0] == '/' {
            Some(rest.subrange(1, rest.len() as int))
        } else {
            Some(rest)
        }
    } else {
        None
    }
}

impl ClassPathModule {
    /// The module of the class files below the directory with this path.
    pub fn new(name: String, base_path: String) -> (module: Self)
        ensures
            module.name == name,
            module.base_path == base_path,
    {
        ClassPathModule { name, base_path }
    }

    /// The path of the class file with this name: the name behind the path
    /// of the directory and `/`.
    pub fn path_of(&self, class_name: &str) -> (path: String)
        ensures
            path@ == self.base_path@ + seq!['/'] + class_name@,
    {
        proof {
            reveal_strlit("/");
        }
        let path = self.base_path.clone().concat("/").concat(class_name);
        assert(path@ =~= self.base_path@ + seq!['/'] + class_name@);
        path
    }

    /// The package of the class files of a directory.
    pub fn package_of_directory(&self, directory: &str) -> (package: Option<String>)
        ensures
            match package {
                Some(p) => package_below(self.base_path@, directory@) == Some(p@),
                None => package_below(self.base_path@, directory@).is_none(),
            },
    {
        let base = self.base_path.as_str();
        let base_len = base.unicode_len();
        let len = directory.unicode_len();
        if len < base_len {
            return None;
        }
        let mut i: usize = 0;
        while i < base_len
            invariant
                i <= base_len <= len,
                base_len == base@.len(),
                len == directory@.len(),
                base@ == self.base_path@,
                forall|k: int| 0 <= k < i ==> directory@[k] == base@[k],
            decreases base_len - i,
        {
            if directory.get_char(i) != base.get_char(i) {
                assert(directory@.subrange(0, base_len as int)[i as int] != base@[i as int]);
                return None;
            }
            i += 1;
        }
        assert(directory@.subrange(0, base_len as int) =~= base@);
        if len > base_len && directory.get_char(base_len) == '/' {
            let rest = directory.substring_char(base_len + 1, len);
            assert(rest@ =~= directory@.subrange(base_len as int, len as int).subrange(
                1,
                len - base_len,
            ));
            Some(rest.to_owned())
        } else {
            Some(directory.substring_char(base_len, len).to_owned())
        }
    }
}

/// A module archive: its name and the packages that its description
/// names.
pub struct JModModule {
    pub name: String,
    pub packages: Vec<String>,
}

impl JModModule {
    /// The module with this name whose description has these attributes.
    pub fn new(name: String, description: &Vec<AttributeInfo>) -> (module: Self)
        ensures
            module.name == name,
            texts(module.packages@) == packages_in(
                attribute_infos_view(description@),
                description.len() as int,
            ),
    {
        JModModule { name, packages: module_packages(description) }
    }

    /// The name of the entry of the archive that holds the class file with
    /// this name: the name behind `classes/`.
    pub fn entry_of(class_name: &str) -> (entry: String)
        ensures
            entry@ == "classes/"@ + class_name@,
    {
        String::from_str("classes/").concat(class_name)
    }
}

} // verus!
