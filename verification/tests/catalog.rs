use software_manager::custom_software::{
    apply_default_silent_install_args, find_icon_link, CustomSoftwareConfig,
};
use software_manager::software::{software_list, source_kind_for, SoftwareSource};

fn config(id: &str, name: &str, kind: &str, asset_match: &str, url: &str) -> CustomSoftwareConfig {
    CustomSoftwareConfig {
        id: id.to_string(),
        display_name: name.to_string(),
        source_kind: kind.to_string(),
        repo: String::new(),
        asset_match: asset_match.to_string(),
        exe_match: String::new(),
        download_url: url.to_string(),
        page_url: String::new(),
        version: String::new(),
        file_name: String::new(),
        silent_install_args: String::new(),
        icon_path: String::new(),
    }
}

#[test]
fn prefers_apple_touch_icon_from_official_page() {
    let html = r#"
            <link rel="shortcut icon" href="/assets/favicon.ico" sizes="128x128" />
            <link rel="apple-touch-icon" href="/assets/apple-touch-icon.png" />
        "#;

    let icon = find_icon_link(html, "https://code.visualstudio.com/thank-you?dv=win64user")
        .expect("official page icon");

    assert_eq!(
        icon,
        "https://code.visualstudio.com/assets/apple-touch-icon.png"
    );
}

#[test]
fn supplies_vscode_silent_install_profile() {
    let mut config = config(
        "visual-studio-code",
        "Visual Studio Code",
        "direct",
        "vscodeusersetup x64 exe",
        "https://code.visualstudio.com/thank-you?dv=win64user",
    );

    apply_default_silent_install_args(&mut config);

    assert_eq!(
        config.silent_install_args,
        r#"/VERYSILENT /SUPPRESSMSGBOXES /MERGETASKS="desktopicon,!associatewithfiles""#
    );
}

#[test]
fn includes_chatgpt_as_a_microsoft_store_app() {
    let target = software_list(&[])
        .into_iter()
        .find(|target| target.id == "chatgpt")
        .expect("ChatGPT target");

    assert_eq!(source_kind_for(&target), "store");
    assert_eq!(target.install_kind, "store");
    match target.source {
        SoftwareSource::MicrosoftStore {
            product_id,
            package_name,
        } => {
            assert_eq!(product_id, "9PLM9XGG6VKS");
            assert_eq!(package_name, "OpenAI.Codex");
        }
        _ => panic!("ChatGPT must use the Microsoft Store source"),
    }
}
