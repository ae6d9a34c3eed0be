use pbgui_messaging::outgoing::bootstrap_commands;
use pbgui_messaging::{
    ChooseAltDist, Event, IChooseAltDist, IMsg, IVpinDialog, OChooseAltDist, OMsg, OVpinDialog,
    ToEvent, ToIMsg, ToOMsg, VpinDialog,
};

#[test]
fn every_topic_round_trips_through_its_text() {
    let topics = vec![
        Event::VpinDialog(VpinDialog::UpdateRoles),
        Event::VpinDialog(VpinDialog::UpdateSites),
        Event::VpinDialog(VpinDialog::UpdateLevels),
        Event::ChooseAltDist(ChooseAltDist::GetDistributions),
        Event::Error,
    ];
    for topic in topics {
        let text = topic.to_text();
        assert_eq!(Event::from_text(&text), Some(topic));
    }
}

#[test]
fn topic_text_forms_are_exact() {
    assert_eq!(
        Event::VpinDialog(VpinDialog::UpdateRoles).to_text(),
        "VpinDialog::UpdateRoles"
    );
    assert_eq!(
        Event::VpinDialog(VpinDialog::UpdateSites).to_text(),
        "VpinDialog::UpdateSites"
    );
    assert_eq!(
        Event::VpinDialog(VpinDialog::UpdateLevels).to_text(),
        "VpinDialog::UpdateLevels"
    );
    assert_eq!(
        Event::ChooseAltDist(ChooseAltDist::GetDistributions).to_text(),
        "ChooseAltDist::GetDistributions"
    );
    assert_eq!(Event::Error.to_text(), "Error");
}

#[test]
fn unknown_topic_text_is_rejected() {
    assert_eq!(Event::from_text("VpinDialog::UpdateShots"), None);
    assert_eq!(Event::from_text(""), None);
    assert_eq!(Event::from_text("error"), None);
}

#[test]
fn namespaced_topics_convert_to_events() {
    assert_eq!(
        VpinDialog::UpdateRoles.to_event(),
        Event::VpinDialog(VpinDialog::UpdateRoles)
    );
    assert_eq!(
        ChooseAltDist::GetDistributions.to_event(),
        Event::ChooseAltDist(ChooseAltDist::GetDistributions)
    );
}

#[test]
fn namespaced_commands_convert_to_omsg() {
    assert_eq!(
        OVpinDialog::GetRoles.to_omsg(),
        OMsg::VpinDialog(OVpinDialog::GetRoles)
    );
    assert_eq!(
        OChooseAltDist::GetDistributions {
            package: "maya".to_string(),
        }
        .to_omsg(),
        OMsg::ChooseAltDist(OChooseAltDist::GetDistributions {
            package: "maya".to_string(),
        })
    );
}

#[test]
fn namespaced_results_convert_to_imsg() {
    let msg = IVpinDialog::Roles(vec!["model".to_string()]).to_imsg();
    match msg {
        IMsg::VpinDialog(IVpinDialog::Roles(roles)) => {
            assert_eq!(roles, vec!["model".to_string()]);
        }
        _ => panic!("wrong namespace"),
    }
    let msg = IChooseAltDist::Distributions(vec!["maya-1".to_string()]).to_imsg();
    match msg {
        IMsg::ChooseAltDist(IChooseAltDist::Distributions(dists)) => {
            assert_eq!(dists, vec!["maya-1".to_string()]);
        }
        _ => panic!("wrong namespace"),
    }
}

#[test]
fn bootstrap_sends_roles_sites_levels() {
    let cmds = bootstrap_commands("dev01");
    assert_eq!(
        cmds,
        vec![
            OMsg::VpinDialog(OVpinDialog::GetRoles),
            OMsg::VpinDialog(OVpinDialog::GetSites),
            OMsg::VpinDialog(OVpinDialog::GetLevels("dev01".to_string())),
        ]
    );
}
