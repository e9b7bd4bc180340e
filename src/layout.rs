use crate::pipeline::{FileLayout, CHANNEL_COUNT_FIELD, PING_CHANNEL_COUNT_FIELD};
use crate::record::FieldSpec;
use vstd::prelude::*;

verus! {

/// The file header: 254 declared bytes at the start of the file.
pub fn file_header_schema() -> (r: Vec<FieldSpec<'static>>)
    ensures
        r@.len() == 33,
        r@[9].name@ == CHANNEL_COUNT_FIELD@,
        r@[9].code@ == "H"@,
        r@[9].offset == 166,
{
    vec![
        FieldSpec { name: "FileFormat", code: "b", offset: 0 },
        FieldSpec { name: "SystemType", code: "b", offset: 1 },
        FieldSpec { name: "RecordingProgramName", code: "8s", offset: 2 },
        FieldSpec { name: "RecordingProgramVersion", code: "8s", offset: 10 },
        FieldSpec { name: "SonarName", code: "16s", offset: 18 },
        FieldSpec { name: "SensorsType", code: "H", offset: 34 },
        FieldSpec { name: "NoteString", code: "64s", offset: 36 },
        FieldSpec { name: "ThisFileName", code: "64s", offset: 100 },
        FieldSpec { name: "NavUnits", code: "H", offset: 164 },
        FieldSpec { name: "NumberOfSonarChannels", code: "H", offset: 166 },
        FieldSpec { name: "NumberOfBathymetryChannels", code: "H", offset: 168 },
        FieldSpec { name: "NumberOfSnippetChannels", code: "b", offset: 170 },
        FieldSpec { name: "NumberOfForwardLookArrays", code: "b", offset: 171 },
        FieldSpec { name: "NumberOfEchoStrengthChannels", code: "H", offset: 172 },
        FieldSpec { name: "NumberOfInterferometryChannels", code: "b", offset: 174 },
        FieldSpec { name: "Reserved1", code: "b", offset: 175 },
        FieldSpec { name: "Reserved2", code: "b", offset: 176 },
        FieldSpec { name: "ReferencePointHeight", code: "b", offset: 178 },
        FieldSpec { name: "ProjectionType", code: "12z", offset: 182 },
        FieldSpec { name: "SpheriodType", code: "10z", offset: 194 },
        FieldSpec { name: "NavigationLatency", code: "H", offset: 204 },
        FieldSpec { name: "OriginY", code: "f", offset: 208 },
        FieldSpec { name: "OriginX", code: "f", offset: 212 },
        FieldSpec { name: "NavOffsetY", code: "f", offset: 216 },
        FieldSpec { name: "NavOffsetX", code: "f", offset: 220 },
        FieldSpec { name: "NavOffsetZ", code: "f", offset: 224 },
        FieldSpec { name: "NavOffsetYaw", code: "f", offset: 228 },
        FieldSpec { name: "MRUOffsetY", code: "f", offset: 232 },
        FieldSpec { name: "MRUOffsetX", code: "f", offset: 236 },
        FieldSpec { name: "MRUOffsetZ", code: "f", offset: 240 },
        FieldSpec { name: "MRUOffsetYaw", code: "f", offset: 244 },
        FieldSpec { name: "MRUOffsetPitch", code: "f", offset: 248 },
        FieldSpec { name: "MRUOffsetRoll", code: "f", offset: 252 },
    ]
}

/// One channel-info record; the file header gives how many follow it.
pub fn channel_info_schema() -> (r: Vec<FieldSpec<'static>>)
    ensures
        r@.len() == 21,
{
    vec![
        FieldSpec { name: "TypeOfChannel", code: "b", offset: 0 },
        FieldSpec { name: "SubChannelNumber", code: "b", offset: 1 },
        FieldSpec { name: "CorrectionFlags", code: "H", offset: 2 },
        FieldSpec { name: "UniPolar", code: "H", offset: 4 },
        FieldSpec { name: "BytesPerSample", code: "H", offset: 6 },
        FieldSpec { name: "Reserved", code: "H", offset: 8 },
        FieldSpec { name: "ChannelName", code: "16s", offset: 12 },
        FieldSpec { name: "VoltScale", code: "f", offset: 28 },
        FieldSpec { name: "Frequency", code: "f", offset: 32 },
        FieldSpec { name: "HorizBeamAngle", code: "f", offset: 36 },
        FieldSpec { name: "TiltAngle", code: "f", offset: 40 },
        FieldSpec { name: "BeamWidth", code: "f", offset: 44 },
        FieldSpec { name: "OffsetX", code: "f", offset: 48 },
        FieldSpec { name: "OffsetY", code: "f", offset: 52 },
        FieldSpec { name: "OffsetZ", code: "f", offset: 56 },
        FieldSpec { name: "OffsetYaw", code: "f", offset: 60 },
        FieldSpec { name: "OffsetPitch", code: "f", offset: 64 },
        FieldSpec { name: "OffsetRoll", code: "f", offset: 68 },
        FieldSpec { name: "BeamsPerArray", code: "H", offset: 72 },
        FieldSpec { name: "SampleFormat", code: "b", offset: 74 },
        FieldSpec { name: "ReservedArea2", code: "53z", offset: 75 },
    ]
}

/// A ping header; it opens with the magic number.
pub fn ping_header_schema() -> (r: Vec<FieldSpec<'static>>)
    ensures
        r@.len() == 79,
        r@[0].code@ == "H"@,
        r@[0].offset == 0,
        r@[3].name@ == PING_CHANNEL_COUNT_FIELD@,
        r@[3].code@ == "H"@,
        r@[3].offset == 4,
{
    vec![
        FieldSpec { name: "MagicNumber", code: "H", offset: 0 },
        FieldSpec { name: "HeaderType", code: "b", offset: 2 },
        FieldSpec { name: "SubChannelNumber", code: "b", offset: 3 },
        FieldSpec { name: "NumChansToFollow", code: "H", offset: 4 },
        FieldSpec { name: "Reserved1", code: "2H", offset: 6 },
        FieldSpec { name: "NumBytesThisRecord", code: "H", offset: 10 },
        FieldSpec { name: "Year", code: "H", offset: 14 },
        FieldSpec { name: "Month", code: "b", offset: 16 },
        FieldSpec { name: "Day", code: "b", offset: 17 },
        FieldSpec { name: "Hour", code: "b", offset: 18 },
        FieldSpec { name: "Minute", code: "b", offset: 19 },
        FieldSpec { name: "Second", code: "b", offset: 20 },
        FieldSpec { name: "HSeconds", code: "b", offset: 21 },
        FieldSpec { name: "JulianDay", code: "H", offset: 22 },
        FieldSpec { name: "EventNumber", code: "H", offset: 24 },
        FieldSpec { name: "PingNumber", code: "H", offset: 28 },
        FieldSpec { name: "SoundVelocity", code: "f", offset: 32 },
        FieldSpec { name: "OceanTide", code: "f", offset: 36 },
        FieldSpec { name: "Reserved2", code: "2H", offset: 40 },
        FieldSpec { name: "ConductivityFreq", code: "f", offset: 44 },
        FieldSpec { name: "TemperatureFreq", code: "f", offset: 48 },
        FieldSpec { name: "PressureFreq", code: "f", offset: 52 },
        FieldSpec { name: "PressureTemp", code: "f", offset: 56 },
        FieldSpec { name: "Conductivity", code: "f", offset: 60 },
        FieldSpec { name: "WaterTemperature", code: "f", offset: 64 },
        FieldSpec { name: "Pressure", code: "f", offset: 68 },
        FieldSpec { name: "ComputedSoundVelocity", code: "f", offset: 72 },
        FieldSpec { name: "MagX", code: "f", offset: 76 },
        FieldSpec { name: "MagY", code: "f", offset: 80 },
        FieldSpec { name: "MagZ", code: "f", offset: 84 },
        FieldSpec { name: "AuxVal1", code: "f", offset: 88 },
        FieldSpec { name: "AuxVal2", code: "f", offset: 92 },
        FieldSpec { name: "AuxVal3", code: "f", offset: 96 },
        FieldSpec { name: "Reserved3", code: "f", offset: 100 },
        FieldSpec { name: "Reserved4", code: "f", offset: 104 },
        FieldSpec { name: "Reserved5", code: "f", offset: 108 },
        FieldSpec { name: "SpeedLog", code: "f", offset: 112 },
        FieldSpec { name: "Turbidity", code: "f", offset: 116 },
        FieldSpec { name: "ShipSpeed", code: "f", offset: 120 },
        FieldSpec { name: "ShipGyro", code: "f", offset: 124 },
        FieldSpec { name: "ShipYcoordinate", code: "d", offset: 128 },
        FieldSpec { name: "ShipXcoordinate", code: "d", offset: 136 },
        FieldSpec { name: "ShipAltitude", code: "H", offset: 144 },
        FieldSpec { name: "ShipDepth", code: "H", offset: 146 },
        FieldSpec { name: "FixTimeHour", code: "b", offset: 148 },
        FieldSpec { name: "FixTimeMinute", code: "b", offset: 149 },
        FieldSpec { name: "FixTimeSecond", code: "b", offset: 150 },
        FieldSpec { name: "FixTimeHsecond", code: "b", offset: 151 },
        FieldSpec { name: "SensorSpeed", code: "f", offset: 152 },
        FieldSpec { name: "KP", code: "f", offset: 156 },
        FieldSpec { name: "SensorYcoordinate", code: "d", offset: 160 },
        FieldSpec { name: "SensorXcoordinate", code: "d", offset: 168 },
        FieldSpec { name: "SonarStatus", code: "H", offset: 176 },
        FieldSpec { name: "RangeToFish", code: "H", offset: 178 },
        FieldSpec { name: "BearingToFish", code: "H", offset: 180 },
        FieldSpec { name: "CableOut", code: "H", offset: 182 },
        FieldSpec { name: "Layback", code: "f", offset: 184 },
        FieldSpec { name: "CableTension", code: "f", offset: 188 },
        FieldSpec { name: "SensorDepth", code: "f", offset: 192 },
        FieldSpec { name: "SensorPrimaryAltitude", code: "f", offset: 196 },
        FieldSpec { name: "SensorAuxAltitude", code: "f", offset: 200 },
        FieldSpec { name: "SensorPitch", code: "f", offset: 204 },
        FieldSpec { name: "SensorRoll", code: "f", offset: 208 },
        FieldSpec { name: "SensorHeading", code: "f", offset: 212 },
        FieldSpec { name: "Heave", code: "f", offset: 216 },
        FieldSpec { name: "Yaw", code: "f", offset: 220 },
        FieldSpec { name: "AttitudeTimeTag", code: "2H", offset: 224 },
        FieldSpec { name: "DOT", code: "f", offset: 228 },
        FieldSpec { name: "NavFixMilliseconds", code: "2H", offset: 232 },
        FieldSpec { name: "ComputerClockHour", code: "b", offset: 236 },
        FieldSpec { name: "ComputerClockMinute", code: "b", offset: 237 },
        FieldSpec { name: "ComputerClockSecond", code: "b", offset: 238 },
        FieldSpec { name: "ComputerClockHsec", code: "b", offset: 239 },
        FieldSpec { name: "FishPositionDeltaX", code: "H", offset: 240 },
        FieldSpec { name: "FishPositionDeltaY", code: "H", offset: 242 },
        FieldSpec { name: "FishPositionErrorCode", code: "b", offset: 244 },
        FieldSpec { name: "OptionalOffset", code: "2H", offset: 245 },
        FieldSpec { name: "CableOutHundredths", code: "b", offset: 249 },
        FieldSpec { name: "ReservedSpace2", code: "6z", offset: 250 },
    ]
}

/// One ping-channel header; the ping header gives how many follow it.
pub fn ping_channel_schema() -> (r: Vec<FieldSpec<'static>>)
    ensures
        r@.len() == 24,
{
    vec![
        FieldSpec { name: "ChannelNumber", code: "H", offset: 0 },
        FieldSpec { name: "DownsampleMethod", code: "H", offset: 2 },
        FieldSpec { name: "SlantRange", code: "f", offset: 4 },
        FieldSpec { name: "GroundRange", code: "f", offset: 8 },
        FieldSpec { name: "TimeDelay", code: "f", offset: 12 },
        FieldSpec { name: "TimeDuration", code: "f", offset: 16 },
        FieldSpec { name: "SecondsPerPing", code: "f", offset: 20 },
        FieldSpec { name: "ProcessingFlags", code: "H", offset: 24 },
        FieldSpec { name: "Frequency", code: "H", offset: 26 },
        FieldSpec { name: "InitialGainCode", code: "H", offset: 28 },
        FieldSpec { name: "GainCode", code: "H", offset: 30 },
        FieldSpec { name: "BandWidth", code: "H", offset: 32 },
        FieldSpec { name: "ContactNumber", code: "2H", offset: 34 },
        FieldSpec { name: "ContactClassification", code: "H", offset: 38 },
        FieldSpec { name: "ContactSubNumber", code: "b", offset: 40 },
        FieldSpec { name: "ContactType", code: "b", offset: 41 },
        FieldSpec { name: "NumSamples", code: "H", offset: 42 },
        FieldSpec { name: "MillivoltScale", code: "H", offset: 46 },
        FieldSpec { name: "ContactTimeOffTrack", code: "f", offset: 48 },
        FieldSpec { name: "ContactCloseNumber", code: "b", offset: 52 },
        FieldSpec { name: "Reserved2", code: "b", offset: 53 },
        FieldSpec { name: "FixedVSOP", code: "f", offset: 54 },
        FieldSpec { name: "Weight", code: "H", offset: 58 },
        FieldSpec { name: "ReservedSpace", code: "4z", offset: 60 },
    ]
}

/// The layouts of the four record kinds of an XTF file.
pub fn xtf_layout() -> (r: FileLayout<'static>)
    ensures
        r.file_header@.len() == 33,
        r.channel_info@.len() == 21,
        r.ping_header@.len() == 79,
        r.ping_channel@.len() == 24,
{
    FileLayout {
        file_header: file_header_schema(),
        channel_info: channel_info_schema(),
        ping_header: ping_header_schema(),
        ping_channel: ping_channel_schema(),
    }
}

} // verus!
