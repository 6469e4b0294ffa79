use jaws::commands::{GCICommand, SSMCommand};
use jaws::inventory::{passes_filter, running_instances, sort_by_name, text_lt, EC2Command, EC2Instance};
use jaws::model::{Instance, InstanceTypeSpec, Tag};

fn instance(id: &str, state: &str, tags: &[(&str, &str)]) -> Instance {
    Instance {
        instance_id: id.to_string(),
        instance_type: "m5.large".to_string(),
        state: state.to_string(),
        availability_zone: Some("eu-west-1a".to_string()),
        tags: tags.iter().map(|(k, v)| Tag { key: k.to_string(), value: v.to_string() }).collect(),
        public_ip_address: None,
        private_ip_address: Some("10.0.0.7".to_string()),
        iam_instance_profile_arn: None,
        spot: false,
    }
}

fn row(inst: Instance, spec: Option<InstanceTypeSpec>) -> EC2Instance {
    EC2Instance {
        az: inst.availability_zone.clone(),
        instance_type: Some(inst.instance_type.clone()),
        instance: inst,
        ssm: Some(true),
        spec,
    }
}

#[test]
fn names_from_tags() {
    let named = row(instance("i-1", "running", &[("env", "prod"), ("Name", "web"), ("Name", "other")]), None);
    assert_eq!(named.get_name(), "web");
    assert_eq!(named.find_tag_value("env"), Some("prod".to_string()));
    assert_eq!(named.find_tag_value("missing"), None);
    let cluster = row(instance("i-2", "running", &[("aws:eks:cluster-name", "prod-eks")]), None);
    assert_eq!(cluster.get_name(), "[EKS] prod-eks");
    let bare = row(instance("i-3", "running", &[]), None);
    assert_eq!(bare.get_name(), "Untitled");
}

#[test]
fn keeps_running_instances() {
    let all = vec![instance("i-1", "running", &[]), instance("i-2", "stopped", &[]), instance("i-3", "running", &[])];
    let running: Vec<String> = running_instances(all).into_iter().map(|i| i.instance_id).collect();
    assert_eq!(running, vec!["i-1".to_string(), "i-3".to_string()]);
}

#[test]
fn id_filter() {
    let id = "i-2".to_string();
    assert!(passes_filter(&None, &id));
    assert!(passes_filter(&Some(vec!["i-1".to_string(), "i-2".to_string()]), &id));
    assert!(!passes_filter(&Some(vec!["i-1".to_string()]), &id));
    assert!(!passes_filter(&Some(Vec::new()), &id));
}

#[test]
fn sorts_by_name_stably() {
    let rows = vec![
        row(instance("i-1", "running", &[("Name", "web")]), None),
        row(instance("i-2", "running", &[("Name", "api")]), None),
        row(instance("i-3", "running", &[]), None),
        row(instance("i-4", "running", &[("Name", "api")]), None),
        row(instance("i-5", "running", &[("Name", "Zed")]), None),
    ];
    let ids: Vec<String> = sort_by_name(rows).into_iter().map(|r| r.instance.instance_id).collect();
    assert_eq!(ids, vec!["i-3", "i-5", "i-2", "i-4", "i-1"]);
    assert!(text_lt("ab", "b"));
    assert!(text_lt("a", "ab"));
    assert!(!text_lt("ab", "ab"));
    assert!(!text_lt("b", "ab"));
}

#[test]
fn inventory_matrix_wide() {
    let mut cmd = EC2Command::new(true);
    cmd.instances = vec![
        row(instance("i-1", "running", &[("Name", "web")]), Some(InstanceTypeSpec { vcpus: 2, memory_gib: 8 })),
        row(instance("i-2", "running", &[]), Some(InstanceTypeSpec { vcpus: 4, memory_gib: 16 })),
        row(instance("i-3", "running", &[]), None),
    ];
    let m = cmd.generate_matrix();
    let rows = m.rows.unwrap();
    assert_eq!(rows.len(), 4);
    assert_eq!(rows[0].len(), 10);
    let first: Vec<String> = rows[1].iter().map(|c| c.clone().unwrap()).collect();
    assert_eq!(first, vec!["i-1", "web", "running", "None", "10.0.0.7", "No", "Yes", "eu-west-1a", "m5.large", "2/8"]);
    assert_eq!(rows[3][9], Some("Unknown".to_string()));
    let aggregates: Vec<(String, String)> = m.aggregate_rows.unwrap().into_iter().map(|a| (a.name, a.value)).collect();
    assert_eq!(aggregates, vec![("Fleet CPU Total".to_string(), "6".to_string()), ("Fleet Memory Total".to_string(), "24".to_string())]);
}

#[test]
fn inventory_matrix_narrow() {
    let mut cmd = EC2Command::new(false);
    cmd.instances = vec![row(instance("i-1", "running", &[]), Some(InstanceTypeSpec { vcpus: 2, memory_gib: 8 }))];
    let out = cmd.get_matrix_output().unwrap();
    let m = &out.matrices[0];
    assert_eq!(m.rows.as_ref().unwrap()[1].len(), 6);
    assert_eq!(m.aggregate_rows.as_ref().unwrap()[0].value, "0");
}

#[test]
fn command_lines() {
    let lines = GCICommand.identity_lines("arn:aws:iam::1:user/x", "1", "AID");
    assert_eq!(lines[0], "ARN:        arn:aws:iam::1:user/x");
    assert_eq!(lines[2], "User:       AID");
    let ssm = SSMCommand::new();
    assert_eq!(ssm.session_command("i-9"), vec!["aws", "ssm", "start-session", "--target", "i-9"]);
    assert_eq!(ssm.opening_text("i-9"), "Opening SSM session with i-9\n");
}
