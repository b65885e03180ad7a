# capitalist_robot

The decision logic of a robot that explores a grid world in search of rocks,
garbage and fish, turns them into coins and deposits the coins at banks. The
robot switches between five modes: searching content, scanning for content,
following a street, scanning a city for banks, and searching a bank.

The library in `src/` is written in Verus and verified:

- `geometry`: directions, neighbouring cells, Manhattan distance, the rule
  that keeps a scanned square inside the world;
- `world`: plain models of tiles, contents, the 3x3 view and the backpack;
- `chart`: the places the robot remembers (banks, places to keep away from),
  with laws on what a read gives back after a save or a remove;
- `random`: the random direction orders and coin flips (through `rand`);
- `robot`: the robot's decision state and the start-of-tick rules;
- `modes`: what the robot decides in each mode, each decision a function from
  the state and what the world reported to the next state and the action.

`app/` holds the program that runs the robot in a generated world: it makes
the world's calls, converts the world's values to the library's, and runs the
tick loop. It needs the world crates of the robotics course.
