use jvm::class::structs::java_str::JavaStr;
use jvm::runtime::class_loader::modules::{module_packages, ClassPathModule, JModModule};
use jvm::runtime::structs::attributes::AttributeInfo;

#[test]
fn a_class_file_lies_below_the_directory() {
    let module = ClassPathModule::new("main".to_string(), "/tmp/classes".to_string());
    assert_eq!(module.name, "main");
    assert_eq!(module.path_of("a/B.class"), "/tmp/classes/a/B.class");
    assert_eq!(module.path_of(""), "/tmp/classes/");
}

#[test]
fn the_package_of_a_directory_is_its_path_below_the_base() {
    let module = ClassPathModule::new("main".to_string(), "/tmp/classes".to_string());
    assert_eq!(module.package_of_directory("/tmp/classes/a/b"), Some("a/b".to_string()));
    assert_eq!(module.package_of_directory("/tmp/classes"), Some("".to_string()));
    assert_eq!(module.package_of_directory("/tmp/classes/"), Some("".to_string()));
    assert_eq!(module.package_of_directory("/tmp/classesx"), Some("x".to_string()));
    assert_eq!(module.package_of_directory("/tmp/other/a"), None);
    assert_eq!(module.package_of_directory("/tmp"), None);
}

#[test]
fn the_packages_of_a_module_are_those_that_its_description_lists() {
    let attributes = vec![
        AttributeInfo::Deprecated,
        AttributeInfo::ModulePackages(vec![
            JavaStr::from_str("java/lang"),
            JavaStr::new(vec![0xff]),
            JavaStr::from_str("java/io"),
        ]),
        AttributeInfo::SourceFile(JavaStr::from_str("module-info.java")),
        AttributeInfo::ModulePackages(vec![JavaStr::from_str("java/util")]),
    ];
    assert_eq!(module_packages(&attributes), vec!["java/lang", "java/io", "java/util"]);
    assert!(module_packages(&vec![]).is_empty());
    let module = JModModule::new("java.base".to_string(), &attributes);
    assert_eq!(module.name, "java.base");
    assert_eq!(module.packages.len(), 3);
    assert_eq!(JModModule::entry_of("java/lang/Object.class"), "classes/java/lang/Object.class");
}
