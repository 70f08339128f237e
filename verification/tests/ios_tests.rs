use hilen_release::ios::{
    lipo_command, mobile_command, plist_command, project_file, set_deployment_target,
    universal_lib, xcodebuild_command,
};

const PROJECT: &str = "buildSettings = {\n\tIPHONEOS_DEPLOYMENT_TARGET = 13.0;\n\tSDKROOT = iphoneos;\n};\nother = {\n\tIPHONEOS_DEPLOYMENT_TARGET = 12.4.1;\n};\n";

#[test]
fn every_deployment_target_is_set_to_the_minimum() {
    let out = set_deployment_target(PROJECT, "15.0").unwrap();
    assert_eq!(
        out,
        "buildSettings = {\n\tIPHONEOS_DEPLOYMENT_TARGET = 15.0;\n\tSDKROOT = iphoneos;\n};\nother = {\n\tIPHONEOS_DEPLOYMENT_TARGET = 15.0;\n};\n"
    );
}

#[test]
fn a_project_without_a_target_is_refused() {
    assert_eq!(set_deployment_target("SDKROOT = iphoneos;", "15.0"), None);
    assert_eq!(set_deployment_target("IPHONEOS_DEPLOYMENT_TARGET = ;", "15.0"), None);
    assert_eq!(set_deployment_target("IPHONEOS_DEPLOYMENT_TARGET = 1.0", "15.0"), None);
    assert_eq!(set_deployment_target("IPHONEOS_DEPLOYMENT_TARGET = abc;", "15.0"), None);
}

#[test]
fn a_second_rewrite_changes_nothing() {
    let once = set_deployment_target(PROJECT, "16.2").unwrap();
    let twice = set_deployment_target(&once, "16.2").unwrap();
    assert_eq!(once, twice);
}

#[test]
fn a_setting_inside_other_text_is_found() {
    let out = set_deployment_target("xIPHONEOS_DEPLOYMENT_TARGET = IPHONEOS_DEPLOYMENT_TARGET = 9;y", "15.0").unwrap();
    assert_eq!(out, "xIPHONEOS_DEPLOYMENT_TARGET = IPHONEOS_DEPLOYMENT_TARGET = 15.0;y");
}

#[test]
fn ios_commands() {
    assert_eq!(lipo_command("demo"), "cargo lipo -p demo --release");
    assert_eq!(universal_lib("libdemo.a"), "target/universal/release/libdemo.a");
    assert_eq!(mobile_command(&["init", "--yes"]), "hilen-mobile init --yes");
    assert_eq!(mobile_command(&[]), "hilen-mobile");
    assert_eq!(project_file("Demo"), "mobile/iOS/Demo.xcodeproj/project.pbxproj");
    assert_eq!(
        plist_command("1.2.3", "Demo"),
        "/usr/libexec/PlistBuddy -c \"Set :CFBundleShortVersionString 1.2.3\" mobile/iOS/Demo/Info.plist"
    );
    assert_eq!(
        xcodebuild_command("Demo"),
        "xcodebuild -scheme Demo -destination \"generic/platform=iOS Simulator\" build"
    );
}

fn regex_rewrite(project: &str, minimum: &str) -> String {
    let target = regex::Regex::new(r"IPHONEOS_DEPLOYMENT_TARGET = [0-9.]+;").unwrap();
    let setting = format!("IPHONEOS_DEPLOYMENT_TARGET = {minimum};");
    target.replace_all(project, setting.as_str()).into_owned()
}

#[test]
fn dollar_references_in_the_minimum_expand_as_the_regex_crate_does() {
    let project = "a IPHONEOS_DEPLOYMENT_TARGET = 13.0; b IPHONEOS_DEPLOYMENT_TARGET = 9.1; c";
    let minimums = [
        "15.0", "1$0", "$$", "${0}", "${+00}x", "$1", "$name", "$", "${unclosed", "$_0", "$00", "${}",
        "${+}", "${1}", "a$$b$", "$-", "${0}${0}",
    ];
    for minimum in minimums {
        let ours = set_deployment_target(project, minimum).unwrap();
        assert_eq!(ours, regex_rewrite(project, minimum), "minimum {minimum:?}");
    }
}

#[test]
fn a_whole_match_reference_copies_the_old_setting() {
    let out = set_deployment_target("IPHONEOS_DEPLOYMENT_TARGET = 13.0;", "${0}").unwrap();
    assert_eq!(out, "IPHONEOS_DEPLOYMENT_TARGET = IPHONEOS_DEPLOYMENT_TARGET = 13.0;;");
    let out = set_deployment_target("IPHONEOS_DEPLOYMENT_TARGET = 13.0;", "1$$2").unwrap();
    assert_eq!(out, "IPHONEOS_DEPLOYMENT_TARGET = 1$2;");
}
