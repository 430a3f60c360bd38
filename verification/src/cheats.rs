//! The host game's cheats, and the queue through which they are set off.
//!
//! The host keeps, for every cheat, an activation flag and the address of a
//! handler function, in two tables at fixed addresses of its image. This
//! module says where the two entries of a cheat lie and what is to be done
//! with a cheat given what they hold. Reading and writing the host's memory
//! and calling a handler are left to the caller.

use vstd::prelude::*;

verus! {

/// Where the host's table of handler addresses starts, before the image's
/// load slide is added.
pub const FUNCTION_TABLE: u64 = 0x1_0065_c358;

/// The size of one entry of the table of handler addresses.
pub const FUNCTION_ENTRY_SIZE: u64 = 8;

/// Where the host's table of activation flags starts, before the image's
/// load slide is added. A flag takes one byte.
pub const ACTIVE_TABLE: u64 = 0x1_0072_dda8;

/// The number of cheats that the host knows.
pub const CHEAT_COUNT: usize = 111;

/// One of the host's cheats.
#[derive(Debug, Clone, Copy, PartialEq, Eq)]
pub struct Cheat {
    /// The cheat's place in the host's tables.
    pub index: u8,
    /// What a player types to set the cheat off; empty where nothing does.
    pub code: &'static str,
    pub description: &'static str,
}

/// What the host holds for one cheat at the moment it is looked at.
#[derive(Debug, Clone, Copy, PartialEq, Eq, Structural)]
pub struct CheatSlot {
    /// The address of the cheat's handler; zero where it has none.
    pub function: u64,
    /// The cheat's activation flag.
    pub active: bool,
}

/// What is to be done to the host to run a cheat.
#[derive(Debug, Clone, Copy, PartialEq, Eq, Structural)]
pub enum CheatAction {
    /// Call the handler at this address.
    Call(u64),
    /// Write this value to the activation flag.
    SetActive(bool),
}

/// The cheats that wait to be run at the host's next safe point, by index,
/// in the order in which they were queued.
#[derive(Debug)]
pub struct CheatQueue {
    waiting: Vec<u8>,
}

impl View for CheatQueue {
    type V = Seq<u8>;

    closed spec fn view(&self) -> Seq<u8> {
        self.waiting@
    }
}

impl CheatQueue {
    /// A queue in which nothing waits.
    pub fn new() -> (queue: CheatQueue)
        ensures
            queue@ == Seq::<u8>::empty(),
    {
        CheatQueue { waiting: Vec::new() }
    }

    /// The number of cheats that wait.
    pub fn len(&self) -> (n: usize)
        ensures
            n == self@.len(),
    {
        self.waiting.len()
    }

    /// Takes out all that waits, in the order of queueing, and leaves the
    /// queue empty.
    pub fn drain(&mut self) -> (taken: Vec<u8>)
        ensures
            taken@ == old(self)@,
            final(self)@ == Seq::<u8>::empty(),
    {
        let mut taken: Vec<u8> = Vec::new();
        taken.append(&mut self.waiting);
        taken
    }
}

impl Cheat {
    pub fn new(index: u8, code: &'static str, description: &'static str) -> (cheat: Cheat)
        ensures
            cheat.index == index,
            cheat.code == code,
            cheat.description == description,
    {
        Cheat { index, code, description }
    }

    /// Where the address of this cheat's handler lies, before the load slide
    /// is added.
    pub fn function_address(&self) -> (address: u64)
        ensures
            address == FUNCTION_TABLE + self.index * FUNCTION_ENTRY_SIZE,
    {
        FUNCTION_TABLE + (self.index as u64) * FUNCTION_ENTRY_SIZE
    }

    /// Where this cheat's activation flag lies, before the load slide is
    /// added.
    pub fn active_address(&self) -> (address: u64)
        ensures
            address == ACTIVE_TABLE + self.index,
    {
        ACTIVE_TABLE + self.index as u64
    }

    /// The handler of this cheat, `slot` being what the host holds for it.
    pub fn get_function(&self, slot: &CheatSlot) -> (function: Option<u64>)
        ensures
            function == if slot.function == 0 {
                None
            } else {
                Some(slot.function)
            },
    {
        if slot.function == 0 {
            None
        } else {
            Some(slot.function)
        }
    }

    /// Whether this cheat is active, `slot` being what the host holds for it.
    pub fn is_active(&self, slot: &CheatSlot) -> (active: bool)
        ensures
            active == slot.active,
    {
        slot.active
    }

    /// Puts this cheat at the end of the queue.
    pub fn queue(&self, waiting: &mut CheatQueue)
        ensures
            final(waiting)@ == old(waiting)@.push(self.index),
    {
        waiting.waiting.push(self.index);
    }

    /// What running this cheat asks for, `slot` being what the host holds for
    /// it: a call of its handler where it has one, else the activation flag
    /// turned over.
    pub fn run(&self, slot: &CheatSlot) -> (action: CheatAction)
        ensures
            action == if slot.function != 0 {
                CheatAction::Call(slot.function)
            } else {
                CheatAction::SetActive(!slot.active)
            },
    {
        match self.get_function(slot) {
            Some(function) => CheatAction::Call(function),
            None => CheatAction::SetActive(!slot.active),
        }
    }
}

/// Whether every cheat of a table stands at its own index.
pub open spec fn in_index_order(cheats: Seq<Cheat>) -> bool {
    forall|i: int| 0 <= i < cheats.len() ==> (#[trigger] cheats[i]).index == i
}

fn push_cheat(cheats: &mut Vec<Cheat>, index: u8, code: &'static str, description: &'static str)
    requires
        in_index_order(old(cheats)@),
        index == old(cheats)@.len(),
    ensures
        in_index_order(final(cheats)@),
        final(cheats)@.len() == index + 1,
{
    cheats.push(Cheat::new(index, code, description));
}

/// The host's cheats, in the order of the host's tables.
pub fn all_cheats() -> (cheats: Vec<Cheat>)
    ensures
        cheats@.len() == CHEAT_COUNT,
        in_index_order(cheats@),
{
    let mut cheats: Vec<Cheat> = Vec::new();
    push_cheat(&mut cheats, 0, "THUGSARMOURY", "Weapon set 1");
    push_cheat(&mut cheats, 1, "PROFESSIONALSKIT", "Weapon set 2");
    push_cheat(&mut cheats, 2, "NUTTERSTOYS", "Weapon set 3");
    push_cheat(&mut cheats, 3, "", "Give dildo, minigun and thermal/night-vision goggles");
    push_cheat(&mut cheats, 4, "", "Advance clock by 4 hours");
    push_cheat(&mut cheats, 5, "", "Skip to completion on some missions");
    push_cheat(&mut cheats, 6, "", "Debug (show mappings)");
    push_cheat(&mut cheats, 7, "", "Full invincibility");
    push_cheat(&mut cheats, 8, "", "Debug (show tap to target)");
    push_cheat(&mut cheats, 9, "", "Debug (show targeting)");
    push_cheat(&mut cheats, 10, "INEEDSOMEHELP", "Give health, armour and $250,000");
    push_cheat(&mut cheats, 11, "TURNUPTHEHEAT", "Increase wanted level by two stars");
    push_cheat(&mut cheats, 12, "TURNDOWNTHEHEAT", "Clear wanted level");
    push_cheat(&mut cheats, 13, "PLEASANTLYWARM", "Sunny weather");
    push_cheat(&mut cheats, 14, "TOODAMNHOT", "Very sunny weather");
    push_cheat(&mut cheats, 15, "DULLDULLDAY", "Overcast weather");
    push_cheat(&mut cheats, 16, "STAYINANDWATCHTV", "Rainy weather");
    push_cheat(&mut cheats, 17, "CANTSEEWHEREIMGOING", "Foggy weather");
    push_cheat(&mut cheats, 18, "TIMEJUSTFLIESBY", "Faster time");
    push_cheat(&mut cheats, 19, "SPEEDITUP", "Faster gameplay");
    push_cheat(&mut cheats, 20, "SLOWITDOWN", "Slower gameplay");
    push_cheat(&mut cheats, 21, "ROUGHNEIGHBOURHOOD", "Pedestrians riot, give player golf club");
    push_cheat(&mut cheats, 22, "STOPPICKINGONME", "Pedestrians attack the player");
    push_cheat(&mut cheats, 23, "SURROUNDEDBYNUTTERS", "Give pedestrians weapons");
    push_cheat(&mut cheats, 24, "TIMETOKICKASS", "Spawn Rhino tank");
    push_cheat(&mut cheats, 25, "OLDSPEEDDEMON", "Spawn Bloodring Banger");
    push_cheat(&mut cheats, 26, "", "Spawn stock car");
    push_cheat(&mut cheats, 27, "NOTFORPUBLICROADS", "Spawn Hotring Racer A");
    push_cheat(&mut cheats, 28, "JUSTTRYANDSTOPME", "Spawn Hotring Racer B");
    push_cheat(&mut cheats, 29, "WHERESTHEFUNERAL", "Spawn Romero");
    push_cheat(&mut cheats, 30, "CELEBRITYSTATUS", "Spawn Stretch Limousine");
    push_cheat(&mut cheats, 31, "TRUEGRIME", "Spawn Trashmaster");
    push_cheat(&mut cheats, 32, "18HOLES", "Spawn Caddy");
    push_cheat(&mut cheats, 33, "ALLCARSGOBOOM", "Explode all vehicles");
    push_cheat(&mut cheats, 34, "WHEELSONLYPLEASE", "Invisible cars");
    push_cheat(&mut cheats, 35, "STICKLIKEGLUE", "Improved suspension and handling");
    push_cheat(&mut cheats, 36, "GOODBYECRUELWORLD", "Suicide");
    push_cheat(&mut cheats, 37, "DONTTRYANDSTOPME", "Traffic lights are always green");
    push_cheat(&mut cheats, 38, "ALLDRIVERSARECRIMINALS", "Aggressive drivers");
    push_cheat(&mut cheats, 39, "PINKISTHENEWCOOL", "Pink traffic");
    push_cheat(&mut cheats, 40, "SOLONGASITSBLACK", "Black traffic");
    push_cheat(&mut cheats, 41, "", "Cars have sideways wheels");
    push_cheat(&mut cheats, 42, "FLYINGFISH", "Flying boats");
    push_cheat(&mut cheats, 43, "WHOATEALLTHEPIES", "Maximum fat");
    push_cheat(&mut cheats, 44, "BUFFMEUP", "Maximum muscle");
    push_cheat(&mut cheats, 45, "", "Maximum gambling skill");
    push_cheat(&mut cheats, 46, "LEANANDMEAN", "Minimum fat and muscle");
    push_cheat(&mut cheats, 47, "BLUESUEDESHOES", "Pedestrians are Elvis Presley");
    push_cheat(
        &mut cheats,
        48,
        "ATTACKOFTHEVILLAGEPEOPLE",
        "Pedestrians attack the player with guns and rockets",
    );
    push_cheat(&mut cheats, 49, "LIFESABEACH", "Beach party theme");
    push_cheat(&mut cheats, 50, "ONLYHOMIESALLOWED", "Gang wars");
    push_cheat(
        &mut cheats,
        51,
        "BETTERSTAYINDOORS",
        "Pedestrians replaced with fighting gang members",
    );
    push_cheat(&mut cheats, 52, "NINJATOWN", "Triad theme");
    push_cheat(&mut cheats, 53, "LOVECONQUERSALL", "Pimp mode");
    push_cheat(&mut cheats, 54, "EVERYONEISPOOR", "Rural traffic");
    push_cheat(&mut cheats, 55, "EVERYONEISRICH", "Sports car traffic");
    push_cheat(&mut cheats, 56, "CHITTYCHITTYBANGBANG", "Flying cars");
    push_cheat(&mut cheats, 57, "CJPHONEHOME", "Very high bunny hops");
    push_cheat(&mut cheats, 58, "JUMPJET", "Spawn Hydra");
    push_cheat(&mut cheats, 59, "IWANTTOHOVER", "Spawn Vortex");
    push_cheat(&mut cheats, 60, "TOUCHMYCARYOUDIE", "Destroy other vehicles on collision");
    push_cheat(&mut cheats, 61, "SPEEDFREAK", "All cars have nitro");
    push_cheat(&mut cheats, 62, "BUBBLECARS", "Cars float away when hit");
    push_cheat(&mut cheats, 63, "NIGHTPROWLER", "Always midnight");
    push_cheat(&mut cheats, 64, "DONTBRINGONTHENIGHT", "Always 9PM");
    push_cheat(&mut cheats, 65, "SCOTTISHSUMMER", "Stormy weather");
    push_cheat(&mut cheats, 66, "SANDINMYEARS", "Sandstorm");
    push_cheat(&mut cheats, 67, "", "Predator?");
    push_cheat(&mut cheats, 68, "KANGAROO", "10x jump height");
    push_cheat(&mut cheats, 69, "NOONECANHURTME", "Infinite health");
    push_cheat(&mut cheats, 70, "MANFROMATLANTIS", "Infinite lung capacity");
    push_cheat(&mut cheats, 71, "LETSGOBASEJUMPING", "Spawn Parachute");
    push_cheat(&mut cheats, 72, "ROCKETMAN", "Spawn Jetpack");
    push_cheat(&mut cheats, 73, "IDOASIPLEASE", "Lock wanted level");
    push_cheat(&mut cheats, 74, "BRINGITON", "Six-star wanted level");
    push_cheat(&mut cheats, 75, "STINGLIKEABEE", "Super punches");
    push_cheat(&mut cheats, 76, "IAMNEVERHUNGRY", "Player never gets hungry");
    push_cheat(&mut cheats, 77, "STATEOFEMERGENCY", "Pedestrians riot");
    push_cheat(&mut cheats, 78, "CRAZYTOWN", "Carnival theme");
    push_cheat(&mut cheats, 79, "TAKEACHILLPILL", "Adrenaline effects");
    push_cheat(&mut cheats, 80, "FULLCLIP", "Everyone has unlimited ammo");
    push_cheat(&mut cheats, 81, "IWANNADRIVEBY", "Full weapon control in vehicles");
    push_cheat(&mut cheats, 82, "GHOSTTOWN", "No pedestrians, reduced live traffic");
    push_cheat(&mut cheats, 83, "HICKSVILLE", "Rural theme");
    push_cheat(&mut cheats, 84, "WANNABEINMYGANG", "Recruit anyone with pistols");
    push_cheat(&mut cheats, 85, "NOONECANSTOPUS", "Recruit anyone with AK-47s");
    push_cheat(&mut cheats, 86, "ROCKETMAYHEM", "Recruit anyone with rocket launchers");
    push_cheat(&mut cheats, 87, "WORSHIPME", "Maximum respect");
    push_cheat(&mut cheats, 88, "HELLOLADIES", "Maximum sex appeal");
    push_cheat(&mut cheats, 89, "ICANGOALLNIGHT", "Maximum stamina");
    push_cheat(&mut cheats, 90, "PROFESSIONALKILLER", "Hitman level for all weapons");
    push_cheat(&mut cheats, 91, "NATURALTALENT", "Maximum vehicle skills");
    push_cheat(&mut cheats, 92, "OHDUDE", "Spawn Hunter");
    push_cheat(&mut cheats, 93, "FOURWHEELFUN", "Spawn Quad");
    push_cheat(&mut cheats, 94, "HITTHEROADJACK", "Spawn Tanker with Tanker Trailer");
    push_cheat(&mut cheats, 95, "ITSALLBULL", "Spawn Dozer");
    push_cheat(&mut cheats, 96, "FLYINGTOSTUNT", "Spawn Stunt Plane");
    push_cheat(&mut cheats, 97, "MONSTERMASH", "Spawn Monster Truck");
    push_cheat(&mut cheats, 98, "", "Prostitutes pay you?");
    push_cheat(&mut cheats, 99, "", "Taxis have hydraulics and nitro");
    push_cheat(&mut cheats, 100, "", "CRASHES! Slot cheat 1");
    push_cheat(&mut cheats, 101, "", "CRASHES! Slot cheat 2");
    push_cheat(&mut cheats, 102, "", "CRASHES! Slot cheat 3");
    push_cheat(&mut cheats, 103, "", "CRASHES! Slot cheat 4");
    push_cheat(&mut cheats, 104, "", "CRASHES! Slot cheat 5");
    push_cheat(&mut cheats, 105, "", "CRASHES! Slot cheat 6");
    push_cheat(&mut cheats, 106, "", "CRASHES! Slot cheat 7");
    push_cheat(&mut cheats, 107, "", "CRASHES! Slot cheat 8");
    push_cheat(&mut cheats, 108, "", "CRASHES! Slot cheat 9");
    push_cheat(&mut cheats, 109, "", "CRASHES! Slot cheat 10");
    push_cheat(&mut cheats, 110, "", "Xbox helper");
    cheats
}

} // verus!
