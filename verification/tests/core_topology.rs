//! How a tester reaches each ECU: gateways, depth, and wiring that could not exist.

#![allow(non_snake_case, non_upper_case_globals)]

use vehicle_sim::core_domain::address::CanAddress;
use vehicle_sim::core_domain::address::CanAddressingMode;
use vehicle_sim::core_domain::ecu::Ecu;
use vehicle_sim::core_domain::topology::Network;
use vehicle_sim::core_domain::topology::NetworkKind;
use vehicle_sim::core_domain::topology::TopologyError;
use vehicle_sim::core_domain::topology::Vehicle;
use vehicle_sim::core_domain::Confidence;

/// How many gateways a tester crosses to reach a network.
fn DepthOf(vehicle: &Vehicle, strNetworkId: &str) -> Option<usize> {
    vehicle
        .NetworkDepths()
        .iter()
        .find(|depth| depth.m_strNetworkId == strNetworkId)
        .map(|depth| depth.m_uDepth)
}

/// A CAN-addressed ECU on a named network.
fn BuildEcu(strName: &str, u32RequestCanId: u32, strNetworkId: &str) -> Ecu {
    let mut ecu = Ecu::New(strName, 0);
    ecu.m_optCanAddress = Some(CanAddress::NewSpecified(
        u32RequestCanId,
        u32RequestCanId + 8,
        CanAddressingMode::Normal11Bit,
    ));
    ecu.m_optStrNetworkId = Some(strNetworkId.to_string());
    ecu
}

fn BuildNetwork(strId: &str, bIsEntryPoint: bool) -> Network {
    Network {
        m_strId: strId.to_string(),
        m_strName: strId.to_string(),
        m_kind: NetworkKind::CanClassic,
        m_optU32BitrateBps: None,
        m_optU32DataBitrateBps: None,
        m_bIsDiagnosticEntryPoint: bIsEntryPoint,
        m_confidence: Confidence::Confirmed,
    }
}

fn BuildGatewayedVehicle() -> Vehicle {
    let mut gateway = BuildEcu("Gateway", 0x7E0, "backbone");
    gateway.m_bHasDoIpAddress = true;
    gateway.m_u16LogicalAddress = 0x0010;
    gateway.m_vecGatewayForNetworkIds = vec!["powertrain".to_string()];

    Vehicle {
        m_strName: "Test vehicle".to_string(),
        m_vecEcus: vec![gateway, BuildEcu("Engine", 0x7E1, "powertrain")],
        m_vecNetworks: vec![
            BuildNetwork("backbone", true),
            BuildNetwork("powertrain", false),
        ],
    }
}

#[test]
fn ecu_behind_a_gateway_is_one_hop_deep() {
    let vehicle = BuildGatewayedVehicle();
    vehicle.ValidateTopology().expect("this wiring is sound");

    let engine = &vehicle.m_vecEcus[1];
    let path = vehicle.DiagnosticPathTo(engine);

    assert!(path.m_bIsReachable);
    assert_eq!(path.m_uHopCount, 1);
    assert_eq!(path.m_vecGatewayEcuNames, vec!["Gateway".to_string()]);

    assert_eq!(DepthOf(&vehicle, "backbone"), Some(0));
    assert_eq!(DepthOf(&vehicle, "powertrain"), Some(1));
}

#[test]
fn ecu_on_the_entry_point_link_crosses_no_gateway() {
    let vehicle = BuildGatewayedVehicle();
    let path = vehicle.DiagnosticPathTo(&vehicle.m_vecEcus[0]);

    assert!(path.m_bIsReachable);
    assert_eq!(path.m_uHopCount, 0);
    assert!(path.m_vecGatewayEcuNames.is_empty());
}

#[test]
fn a_gateway_behind_a_gateway_is_two_hops_deep() {
    let mut vehicle = BuildGatewayedVehicle();

    let mut subGateway = BuildEcu("Sub-gateway", 0x7E2, "powertrain");
    subGateway.m_vecGatewayForNetworkIds = vec!["chassis".to_string()];
    vehicle.m_vecEcus.push(subGateway);
    vehicle.m_vecEcus.push(BuildEcu("ABS", 0x7E3, "chassis"));
    vehicle.m_vecNetworks.push(BuildNetwork("chassis", false));

    vehicle.ValidateTopology().expect("this wiring is sound");

    let abs = vehicle
        .m_vecEcus
        .iter()
        .find(|ecu| ecu.m_strName == "ABS")
        .expect("just added");
    let path = vehicle.DiagnosticPathTo(abs);

    assert_eq!(path.m_uHopCount, 2);
    assert_eq!(
        path.m_vecGatewayEcuNames,
        vec!["Gateway".to_string(), "Sub-gateway".to_string()]
    );
}

#[test]
fn an_ecu_on_a_network_nothing_gateways_onto_is_unreachable() {
    let mut vehicle = BuildGatewayedVehicle();
    vehicle.m_vecNetworks.push(BuildNetwork("orphan", false));
    vehicle
        .m_vecEcus
        .push(BuildEcu("Stranded", 0x7E4, "orphan"));

    vehicle
        .ValidateTopology()
        .expect("nothing here is contradictory");

    let stranded = &vehicle.m_vecEcus[2];
    let path = vehicle.DiagnosticPathTo(stranded);
    assert!(!path.m_bIsReachable);
    assert_eq!(DepthOf(&vehicle, "orphan"), None);
}

#[test]
fn an_ecu_on_no_declared_network_is_treated_as_directly_reachable() {
    let mut vehicle = BuildGatewayedVehicle();
    let mut unplaced = BuildEcu("Unplaced", 0x7E5, "backbone");
    unplaced.m_optStrNetworkId = None;
    vehicle.m_vecEcus.push(unplaced);

    let path = vehicle.DiagnosticPathTo(&vehicle.m_vecEcus[2]);
    assert!(path.m_bIsReachable);
    assert_eq!(path.m_uHopCount, 0);
}

#[test]
fn a_gateway_onto_its_own_network_is_refused() {
    let mut vehicle = BuildGatewayedVehicle();
    vehicle.m_vecEcus[0].m_vecGatewayForNetworkIds = vec!["backbone".to_string()];

    let error = vehicle
        .ValidateTopology()
        .expect_err("a loop of length one");
    assert!(matches!(error, TopologyError::GatewayOntoOwnNetwork { .. }));
}

#[test]
fn two_gateways_onto_one_network_are_refused() {
    let mut vehicle = BuildGatewayedVehicle();
    let mut rival = BuildEcu("Rival gateway", 0x7E6, "backbone");
    rival.m_vecGatewayForNetworkIds = vec!["powertrain".to_string()];
    vehicle.m_vecEcus.push(rival);

    let error = vehicle
        .ValidateTopology()
        .expect_err("two paths to one network are ambiguous");
    assert!(matches!(error, TopologyError::NetworkHasTwoGateways { .. }));
}

#[test]
fn a_gateway_loop_is_refused() {
    let mut vehicle = BuildGatewayedVehicle();
    vehicle.m_vecEcus[1].m_vecGatewayForNetworkIds = vec!["backbone".to_string()];
    vehicle.m_vecNetworks[0].m_bIsDiagnosticEntryPoint = false;

    let error = vehicle.ValidateTopology().expect_err("this is a loop");
    assert!(matches!(error, TopologyError::GatewayCycle { .. }));
}

#[test]
fn a_gateway_onto_an_undeclared_network_is_refused() {
    let mut vehicle = BuildGatewayedVehicle();
    vehicle.m_vecEcus[0].m_vecGatewayForNetworkIds = vec!["no-such-bus".to_string()];

    let error = vehicle
        .ValidateTopology()
        .expect_err("nothing defines that bus");
    assert!(matches!(error, TopologyError::UnknownNetwork { .. }));
}

#[test]
fn entry_points_default_to_the_links_nothing_gateways_onto() {
    let mut vehicle = BuildGatewayedVehicle();
    for network in &mut vehicle.m_vecNetworks {
        network.m_bIsDiagnosticEntryPoint = false;
    }

    vehicle.NormalizeEntryPoints();

    assert!(
        vehicle.m_vecNetworks[0].m_bIsDiagnosticEntryPoint,
        "backbone"
    );
    assert!(
        !vehicle.m_vecNetworks[1].m_bIsDiagnosticEntryPoint,
        "powertrain is behind the gateway, so it is not where a tester attaches"
    );
}

#[test]
fn an_explicit_entry_point_choice_is_left_alone() {
    let mut vehicle = BuildGatewayedVehicle();
    vehicle.m_vecNetworks[0].m_bIsDiagnosticEntryPoint = false;
    vehicle.m_vecNetworks[1].m_bIsDiagnosticEntryPoint = true;

    vehicle.NormalizeEntryPoints();

    assert!(!vehicle.m_vecNetworks[0].m_bIsDiagnosticEntryPoint);
    assert!(vehicle.m_vecNetworks[1].m_bIsDiagnosticEntryPoint);
}

#[test]
fn every_topology_error_names_what_is_wrong() {
    let mut vehicle = BuildGatewayedVehicle();
    vehicle.m_vecEcus[1].m_vecGatewayForNetworkIds = vec!["backbone".to_string()];
    vehicle.m_vecNetworks[0].m_bIsDiagnosticEntryPoint = false;
    let error = vehicle.ValidateTopology().expect_err("a loop");
    assert_eq!(
        error.Message(),
        "the gateways form a loop: backbone → powertrain → backbone. Every network would be reached only through itself"
    );

    let mut vehicle = BuildGatewayedVehicle();
    vehicle.m_vecEcus[0].m_vecGatewayForNetworkIds = vec!["no-such-bus".to_string()];
    assert_eq!(
        vehicle.ValidateTopology().expect_err("undeclared").Message(),
        "ECU 'Gateway' refers to network 'no-such-bus', which this vehicle does not define"
    );
}

#[test]
fn entry_points_and_gateways_are_found_by_network() {
    let vehicle = BuildGatewayedVehicle();
    assert_eq!(vehicle.EntryPointNetworks().len(), 1);
    assert!(vehicle.FindNetwork("powertrain").is_some());
    assert!(vehicle.FindNetwork("no-such-bus").is_none());
    assert_eq!(
        vehicle
            .FindGatewayForNetwork("powertrain")
            .map(|ecu| ecu.m_strName.clone()),
        Some("Gateway".to_string())
    );
    assert!(vehicle.FindGatewayForNetwork("backbone").is_none());
}

#[test]
fn deciding_the_entry_points_twice_changes_nothing() {
    let mut vehicle = BuildGatewayedVehicle();
    for network in &mut vehicle.m_vecNetworks {
        network.m_bIsDiagnosticEntryPoint = false;
    }
    vehicle.NormalizeEntryPoints();
    let vecOnce = vehicle.m_vecNetworks.clone();
    vehicle.NormalizeEntryPoints();
    assert_eq!(vehicle.m_vecNetworks, vecOnce);
}

#[test]
fn an_ecu_that_names_a_network_twice_is_its_only_gateway() {
    let mut vehicle = BuildGatewayedVehicle();
    vehicle.m_vecEcus[0]
        .m_vecGatewayForNetworkIds
        .push("powertrain".to_string());
    assert_eq!(vehicle.ValidateTopology(), Ok(()));
    assert_eq!(DepthOf(&vehicle, "powertrain"), Some(1));

    // Another ECU of the same name is still another ECU.
    let mut twin = BuildEcu("Gateway", 0x7E5, "backbone");
    twin.m_vecGatewayForNetworkIds = vec!["powertrain".to_string()];
    vehicle.m_vecEcus.push(twin);
    assert_eq!(
        vehicle.ValidateTopology(),
        Err(TopologyError::NetworkHasTwoGateways {
            strNetworkId: "powertrain".to_string(),
            strFirstEcu: "Gateway".to_string(),
            strSecondEcu: "Gateway".to_string(),
        })
    );
}

#[test]
fn depths_are_listed_by_network_id() {
    let mut vehicle = BuildGatewayedVehicle();
    vehicle.m_vecEcus[0].m_vecGatewayForNetworkIds = vec![
        "powertrain".to_string(),
        "body".to_string(),
        "bod".to_string(),
        "Zone".to_string(),
        "\u{e9}clairage".to_string(),
    ];
    for strId in ["body", "bod", "Zone", "\u{e9}clairage"] {
        vehicle.m_vecNetworks.push(BuildNetwork(strId, false));
    }
    let vecDepths: Vec<(String, usize)> = vehicle
        .NetworkDepths()
        .into_iter()
        .map(|depth| (depth.m_strNetworkId, depth.m_uDepth))
        .collect();
    let mut vecSorted = vecDepths.clone();
    vecSorted.sort();
    assert_eq!(vecDepths, vecSorted);
    assert_eq!(vecDepths.len(), 6);
    assert_eq!(vecDepths[0], ("Zone".to_string(), 1));
    assert_eq!(vecDepths[1], ("backbone".to_string(), 0));
    assert_eq!(vecDepths[2], ("bod".to_string(), 1));
}

#[test]
fn a_path_ends_at_the_gateway_of_the_ecus_network() {
    let vehicle = BuildGatewayedVehicle();
    // Not one of the vehicle's own ECUs.
    let tester = BuildEcu("Retrofit", 0x7E6, "powertrain");
    let path = vehicle.DiagnosticPathTo(&tester);
    assert!(path.m_bIsReachable);
    assert_eq!(Some(path.m_uHopCount), DepthOf(&vehicle, "powertrain"));
    assert_eq!(
        path.m_vecGatewayEcuNames.last(),
        vehicle
            .FindGatewayForNetwork("powertrain")
            .map(|gateway| &gateway.m_strName)
    );
}
