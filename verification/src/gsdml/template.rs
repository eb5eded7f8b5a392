//! The fixed parts of a GSDML document, in the order in which they appear.

use vstd::prelude::*;

verus! {

/// Everything up to the vendor id.
pub const PROLOG: &'static str = r#"<?xml version="1.0" encoding="utf-8"?>
<ISO15745Profile xmlns="http://www.profibus.com/GSDML/2003/11/DeviceProfile" xmlns:xsi="http://www.w3.org/2001/XMLSchema-instance" xsi:schemaLocation="http://www.profibus.com/GSDML/2003/11/DeviceProfile ..\xsd\GSDML-DeviceProfile-V2.4.xsd">
  <ProfileHeader>
    <ProfileIdentification>PROFINET Device Profile</ProfileIdentification>
    <ProfileRevision>1.00</ProfileRevision>
    <ProfileName>Device Profile for PROFINET Devices</ProfileName>
    <ProfileSource>PROFIBUS Nutzerorganisation e. V. (PNO)</ProfileSource>
    <ProfileClassID>Device</ProfileClassID>
    <ISO15745Reference>
      <ISO15745Part>4</ISO15745Part>
      <ISO15745Edition>1</ISO15745Edition>
      <ProfileTechnology>GSDML</ProfileTechnology>
    </ISO15745Reference>
  </ProfileHeader>
  <ProfileBody>
    <DeviceIdentity VendorID="0x"#;

/// Between vendor id and device id.
pub const DEVICE_ID: &'static str = r#"" DeviceID="0x"#;

/// Between device id and vendor name.
pub const VENDOR_NAME: &'static str = r#"">
      <InfoText TextId="T_InfoText"/>
      <VendorName Value=""#;

/// Between vendor name and product family.
pub const FAMILY: &'static str = r#""/>
    </DeviceIdentity>
    <DeviceFunction>
      <Family MainFamily="I/O" ProductFamily=""#;

/// Between product family and the highest slot.
pub const SLOTS: &'static str = r#""/>
    </DeviceFunction>
    <ApplicationProcess>
      <DeviceAccessPointList>
        <DeviceAccessPointItem ID="DAP1" PNIO_Version="V2.3" PhysicalSlots="0.."#;

/// Between the highest slot and the update interval.
pub const INTERVAL: &'static str = r#"" ModuleIdentNumber="0x00000001" MinDeviceInterval=""#;

/// Between the interval and the station name.
pub const STATION: &'static str = r#"" DNS_CompatibleName=""#;

/// Between the station name and the vendor name of the DAP.
pub const DAP_VENDOR: &'static str = r#"" FixedInSlots="0" ObjectUUID_LocalIndex="1" MultipleWriteSupported="true" DeviceAccessSupported="false" CheckDeviceID_Allowed="true" NameOfStationNotTransferable="false">
          <ModuleInfo>
            <Name TextId="T_DAP_Name"/>
            <InfoText TextId="T_DAP_Info"/>
            <VendorName Value=""#;

/// Between vendor name and identity of the DAP.
pub const DAP_IDENTITY: &'static str = r#""/>
"#;

/// Between the identity and the input length.
pub const MAX_INPUT: &'static str = r#"
          </ModuleInfo>
          <IOConfigData MaxInputLength=""#;

/// Between input and output length.
pub const MAX_OUTPUT: &'static str = r#"" MaxOutputLength=""#;

/// Between output length and their sum.
pub const MAX_DATA: &'static str = r#"" MaxDataLength=""#;

/// Behind the lengths, up to the list of modules.
pub const USEABLE: &'static str = r#""/>
          <UseableModules>
"#;

/// Start of a reference to a module.
pub const MODULE_REF: &'static str = r#"            <ModuleItemRef ModuleItemTarget="M"#;

/// Between the module and the slot it may stand in.
pub const ALLOWED_SLOT: &'static str = r#"" AllowedInSlots=""#;

/// End of a reference to a module.
pub const MODULE_REF_END: &'static str = r#""/>
"#;

/// Behind the list of modules, up to the send clocks.
pub const SEND_CLOCK: &'static str = r#"          </UseableModules>
          <VirtualSubmoduleList>
            <VirtualSubmoduleItem ID="DAP1_SM" SubmoduleIdentNumber="0x00000001" MayIssueProcessAlarm="false" Writeable_IM_Records="1 2 3">
              <IOData/>
              <ModuleInfo>
                <Name TextId="T_DAP_Name"/>
                <InfoText TextId="T_DAP_Info"/>
              </ModuleInfo>
            </VirtualSubmoduleItem>
          </VirtualSubmoduleList>
          <SystemDefinedSubmoduleList>
            <InterfaceSubmoduleItem ID="DAP1_IF" SubslotNumber="32768" TextId="T_Interface" SubmoduleIdentNumber="0x00008000" SupportedRT_Classes="RT_CLASS_1" SupportedProtocols="" DCP_HelloSupported="false" PTP_BoundarySupported="false" DCP_BoundarySupported="false" DelayMeasurementSupported="false">
              <ApplicationRelations StartupMode="Advanced">
                <TimingProperties SendClock=""#;

/// Behind the send clocks, up to the modules.
pub const MODULES: &'static str = r#"" ReductionRatio="1 2 4 8 16 32 64 128 256 512"/>
              </ApplicationRelations>
            </InterfaceSubmoduleItem>
            <PortSubmoduleItem ID="DAP1_P1" SubslotNumber="32769" TextId="T_Port1" SubmoduleIdentNumber="0x00008001" MaxPortTxDelay="160" MaxPortRxDelay="350">
              <MAUTypeList>
                <MAUTypeItem Value="16"/>
              </MAUTypeList>
            </PortSubmoduleItem>
          </SystemDefinedSubmoduleList>
        </DeviceAccessPointItem>
      </DeviceAccessPointList>
      <ModuleList>
"#;

/// Start of a module.
pub const MODULE: &'static str = r#"        <ModuleItem ID="M"#;

/// Between the module's slot and its ident number.
pub const MODULE_IDENT: &'static str = r#"" ModuleIdentNumber="0x"#;

/// Up to the slot in the id of the module's name.
pub const MODULE_NAME: &'static str = r#"">
          <ModuleInfo>
            <Name TextId="M"#;

/// Up to the slot in the id of the module's description.
pub const MODULE_INFO: &'static str = r#"_Name"/>
            <InfoText TextId="M"#;

/// Up to the identity of the module.
pub const MODULE_IDENTITY: &'static str = r#"_Info"/>
"#;

/// Up to the slot in the id of the submodule.
pub const MODULE_SUBMODULE: &'static str = r#"
          </ModuleInfo>
          <VirtualSubmoduleList>
            <VirtualSubmoduleItem ID="M"#;

/// Up to the data of the submodule.
pub const IO_DATA: &'static str = r#"_SM" SubmoduleIdentNumber="0x00000001" MayIssueProcessAlarm="false">
              <IOData>
"#;

/// Start of the data of one direction.
pub const DIRECTION_OPEN: &'static str = r#"                <"#;

/// End of that line.
pub const DIRECTION_OPEN_END: &'static str = r#" Consistency="All items consistency">
"#;

/// Start of a byte-typed field.
pub const SCALAR: &'static str = r#"                  <DataItem DataType=""#;

/// Between its data type and its text id.
pub const SCALAR_ID: &'static str = r#"" TextId=""#;

/// End of a byte-typed field.
pub const SCALAR_END: &'static str = r#""/>
"#;

/// Start of a group of bits, up to its text id.
pub const BITS: &'static str = r#"                  <DataItem DataType="Unsigned8" UseAsBits="true" TextId=""#;

/// End of that line.
pub const BITS_OPENED: &'static str = r#"">
"#;

/// Start of one bit, up to its number.
pub const BIT: &'static str = r#"                    <BitDataItem BitOffset=""#;

/// Between the number of a bit and its text id.
pub const BIT_ID: &'static str = r#"" TextId=""#;

/// End of one bit.
pub const BIT_END: &'static str = r#""/>
"#;

/// Behind the data, up to the slot in the id of the submodule's name.
pub const MODULE_CLOSE: &'static str = r#"              </IOData>
              <ModuleInfo>
                <Name TextId="M"#;

/// Up to the slot in the id of its description.
pub const MODULE_CLOSE_INFO: &'static str = r#"_Name"/>
                <InfoText TextId="M"#;

/// End of a module.
pub const MODULE_END: &'static str = r#"_Info"/>
              </ModuleInfo>
            </VirtualSubmoduleItem>
          </VirtualSubmoduleList>
        </ModuleItem>
"#;

/// Behind the modules, up to the texts.
pub const TEXTS: &'static str = r#"      </ModuleList>
      <ExternalTextList>
        <PrimaryLanguage>
"#;

/// Start of a text, up to its id.
pub const TEXT: &'static str = r#"          <Text TextId=""#;

/// Between the id of a text and its value.
pub const TEXT_VALUE: &'static str = r#"" Value=""#;

/// End of a text.
pub const TEXT_END: &'static str = r#""/>
"#;

/// Everything behind the texts.
pub const EPILOG: &'static str = r#"        </PrimaryLanguage>
      </ExternalTextList>
    </ApplicationProcess>
  </ProfileBody>
</ISO15745Profile>
"#;

/// End of a group of bits.
pub const BITS_CLOSE: &'static str = r#"                  </DataItem>
"#;

/// Start of the line that closes the data of one direction.
pub const DIRECTION_CLOSE: &'static str = r#"                </"#;

/// End of that line.
pub const DIRECTION_CLOSE_END: &'static str = r#">
"#;

/// Start of a module's identity, up to the order number.
pub const ORDER_NUMBER: &'static str = r#"            <OrderNumber Value=""#;

/// Between order number and hardware revision.
pub const HARDWARE: &'static str = r#""/>
            <HardwareRelease Value=""#;

/// Between hardware revision and software revision.
pub const SOFTWARE: &'static str = r#""/>
            <SoftwareRelease Value=""#;

/// End of a module's identity.
pub const IDENTITY_END: &'static str = r#""/>"#;

} // verus!
